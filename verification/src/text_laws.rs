//! What holds of splitting, trimming, numerals and lower case.

use crate::api_client_laws::{lemma_decimal, lemma_hexadecimal, lemma_last_place, lemma_trim};
use crate::text::{
    all_digits, ascii_lower, ascii_lower_char, before_first, before_last, decimal, digit_char,
    digit_value, hex_digit_char, hexadecimal, last_place, lemma_first_place, lemma_split_at,
    lemma_split_none, lemma_word_length, lossy_text, lower, number, numeral_digits, parse_number,
    split, trim, trim_start, white_space, word_length, words,
};
use vstd::prelude::*;
use vstd::utf8::{
    decode_utf8, encode_utf8, encode_utf8_decode_utf8, encode_utf8_valid_utf8, is_ascii_chars,
    valid_utf8,
};

verus! {

/// Pieces with a `c` between each two.
pub open spec fn join(pieces: Seq<Seq<char>>, c: char) -> Seq<char>
    decreases pieces.len(),
{
    if pieces.len() == 0 {
        seq![]
    } else if pieces.len() == 1 {
        pieces[0]
    } else {
        pieces[0] + seq![c] + join(pieces.drop_first(), c)
    }
}

/// The pieces of a text hold no `c`, there is at least one, and with a `c` between
/// each two they are the text again.
pub proof fn law_split_pieces(s: Seq<char>, c: char)
    ensures
        split(s, c).len() > 0,
        forall|i: int| 0 <= i < split(s, c).len() ==> !(#[trigger] split(s, c)[i]).contains(c),
        join(split(s, c), c) == s,
    decreases s.len(),
{
    lemma_first_place(s, c);
    if s.contains(c) {
        let n = crate::text::first_place(s, c);
        let rest = s.skip(n + 1);
        let pieces = split(s, c);
        law_split_pieces(rest, c);
        assert(pieces.drop_first() =~= split(rest, c));
        assert(s =~= s.take(n) + seq![c] + rest);
        assert forall|i: int| 0 <= i < pieces.len() implies !(#[trigger] pieces[i]).contains(c) by {
            if i == 0 {
                if pieces[0].contains(c) {
                    let j = choose|j: int| 0 <= j < pieces[0].len() && pieces[0][j] == c;
                    assert(s[j] == c);
                }
            } else {
                assert(pieces[i] == split(rest, c)[i - 1]);
            }
        }
    } else {
        lemma_split_none(s, c);
        assert forall|i: int| 0 <= i < split(s, c).len() implies !(#[trigger] split(
            s,
            c,
        )[i]).contains(c) by {
            assert(split(s, c)[i] == s);
        }
    }
}

/// Pieces that hold no `c` are the pieces of what they make up with a `c` between
/// each two.
pub proof fn law_joined_pieces_are_split(pieces: Seq<Seq<char>>, c: char)
    requires
        pieces.len() > 0,
        forall|i: int| 0 <= i < pieces.len() ==> !(#[trigger] pieces[i]).contains(c),
    ensures
        split(join(pieces, c), c) == pieces,
    decreases pieces.len(),
{
    assert(!pieces[0].contains(c));
    if pieces.len() == 1 {
        lemma_split_none(pieces[0], c);
        assert(split(pieces[0], c) =~= pieces);
    } else {
        let rest = pieces.drop_first();
        assert forall|i: int| 0 <= i < rest.len() implies !(#[trigger] rest[i]).contains(c) by {
            assert(rest[i] == pieces[i + 1]);
        }
        law_joined_pieces_are_split(rest, c);
        lemma_split_at(pieces[0], join(rest, c), c);
        assert(seq![pieces[0]] + rest =~= pieces);
    }
}

/// What stands before the first `c`, and before the last.
pub proof fn law_before_first_and_last(a: Seq<char>, b: Seq<char>, c: char)
    ensures
        !a.contains(c) ==> before_first(a, c) == a && before_last(a, c) == a,
        !a.contains(c) ==> before_first(a + seq![c] + b, c) == a,
        !b.contains(c) ==> before_last(a + seq![c] + b, c) == a,
{
    if !a.contains(c) {
        lemma_split_none(a, c);
        lemma_split_at(a, b, c);
        assert(a.take(a.len() as int) =~= a);
        assert((a + seq![c] + b).take(a.len() as int) =~= a);
        lemma_no_last_place(a, c);
    }
    if !b.contains(c) {
        lemma_last_place(a, b, c);
        assert((a + seq![c] + b).take(a.len() as int) =~= a);
    }
}

proof fn lemma_no_last_place(s: Seq<char>, c: char)
    requires
        !s.contains(c),
    ensures
        last_place(s, c) == -1,
    decreases s.len(),
{
    if s.len() > 0 {
        assert(s.contains(s.last()));
        let rest = s.drop_last();
        if rest.contains(c) {
            let i = choose|i: int| 0 <= i < rest.len() && rest[i] == c;
            assert(s[i] == c);
        }
        lemma_no_last_place(rest, c);
    }
}

/// Whether all of a text is white space.
pub open spec fn blank(s: Seq<char>) -> bool {
    forall|i: int| 0 <= i < s.len() ==> white_space(#[trigger] s[i])
}

/// White space around a text is trimmed, all of it and nothing else.
pub proof fn law_trim(before: Seq<char>, s: Seq<char>, behind: Seq<char>)
    requires
        blank(before),
        blank(behind),
        s.len() > 0 ==> !white_space(s[0]) && !white_space(s.last()),
    ensures
        trim(before + s + behind) == s,
{
    if s.len() > 0 {
        lemma_trim(before, s, behind);
    } else {
        let all = before + s + behind;
        assert forall|i: int| 0 <= i < all.len() implies white_space(#[trigger] all[i]) by {
            if i < before.len() {
                assert(all[i] == before[i]);
            } else {
                assert(all[i] == behind[i - before.len()]);
            }
        }
        lemma_trim_blank(all);
        assert(s =~= Seq::empty());
    }
}

proof fn lemma_trim_blank(s: Seq<char>)
    requires
        blank(s),
    ensures
        trim_start(s) == Seq::<char>::empty(),
        trim(s) == Seq::<char>::empty(),
    decreases s.len(),
{
    if s.len() > 0 {
        let t = s.drop_first();
        assert(white_space(s[0]));
        assert forall|i: int| 0 <= i < t.len() implies white_space(#[trigger] t[i]) by {
            assert(t[i] == s[i + 1]);
        }
        lemma_trim_blank(t);
    } else {
        assert(s =~= Seq::empty());
    }
}

/// A text without white space is one word, or none where it is empty. White space
/// parts the words before it from those behind it, and is in no word.
pub proof fn law_words(a: Seq<char>, gap: char, b: Seq<char>)
    requires
        white_space(gap),
    ensures
        words(a + seq![gap] + b) == words(a) + words(b),
        a.len() == 0 ==> words(a) == Seq::<Seq<char>>::empty(),
        a.len() > 0 && (forall|i: int| 0 <= i < a.len() ==> !white_space(#[trigger] a[i]))
            ==> words(a) == seq![a],
    decreases a.len(),
{
    let s = a + seq![gap] + b;
    if a.len() > 0 && forall|i: int| 0 <= i < a.len() ==> !white_space(#[trigger] a[i]) {
        lemma_word_length(a, a.len() as int);
        assert(a.take(a.len() as int) =~= a);
        assert(a.skip(a.len() as int) =~= Seq::empty());
        assert(words(Seq::<char>::empty()) =~= Seq::<Seq<char>>::empty());
        assert(words(a) =~= seq![a]);
    }
    if a.len() == 0 {
        assert(s[0] == gap);
        assert(s.drop_first() =~= b);
        assert(words(a) + words(b) =~= words(b));
    } else if white_space(a[0]) {
        assert(s[0] == a[0]);
        assert(s.drop_first() =~= a.drop_first() + seq![gap] + b);
        law_words(a.drop_first(), gap, b);
    } else {
        let n = word_length(a);
        lemma_word_extent(a);
        assert forall|i: int| 0 <= i < n implies !white_space(#[trigger] s[i]) by {
            assert(s[i] == a[i]);
        }
        assert(white_space(s[n])) by {
            if n < a.len() {
                assert(s[n] == a[n]);
            }
        }
        lemma_word_length(s, n);
        assert(s.take(n) =~= a.take(n));
        assert(s.skip(n) =~= a.skip(n) + seq![gap] + b);
        law_words(a.skip(n), gap, b);
        assert(s[0] == a[0]);
        assert(words(s) =~= words(a) + words(b));
    }
}

proof fn lemma_word_extent(s: Seq<char>)
    ensures
        0 <= word_length(s) <= s.len(),
        forall|i: int| 0 <= i < word_length(s) ==> !white_space(#[trigger] s[i]),
        word_length(s) < s.len() ==> white_space(s[word_length(s)]),
        s.len() > 0 && !white_space(s[0]) ==> word_length(s) > 0,
    decreases s.len(),
{
    if s.len() > 0 && !white_space(s[0]) {
        let t = s.drop_first();
        lemma_word_extent(t);
        assert forall|i: int| 0 <= i < word_length(s) implies !white_space(#[trigger] s[i]) by {
            if i > 0 {
                assert(t[i - 1] == s[i]);
            }
        }
        if word_length(s) < s.len() {
            assert(t[word_length(t)] == s[word_length(s)]);
        }
    }
}

/// Exactly the sixteen digits have values below sixteen, the letters among them in
/// either case.
pub proof fn law_digits(c: char, d: nat)
    ensures
        d < 16 ==> digit_value(hex_digit_char(d, true)) == d && digit_value(
            hex_digit_char(d, false),
        ) == d,
        digit_value(c) < 16 ==> c == hex_digit_char(digit_value(c), true) || c == hex_digit_char(
            digit_value(c),
            false,
        ),
        d < 10 ==> hex_digit_char(d, true) == hex_digit_char(d, false),
        hex_digit_char(0, false) == '0' && hex_digit_char(9, false) == '9',
        hex_digit_char(10, false) == 'a' && hex_digit_char(15, false) == 'f',
        hex_digit_char(10, true) == 'A' && hex_digit_char(15, true) == 'F',
{
}

/// A row of zeros.
pub open spec fn zeros(n: nat) -> Seq<char> {
    Seq::new(n, |i: int| '0')
}

proof fn lemma_decimal_row(s: Seq<char>) -> (k: nat)
    requires
        s.len() > 0,
        all_digits(s, 10),
    ensures
        s == zeros(k) + decimal(number(s, 10)),
    decreases s.len(),
{
    let rest = s.drop_last();
    let last = s.last();
    let v = digit_value(last);
    assert(digit_value(s[s.len() - 1]) < 10);
    assert(last == digit_char(v));
    if rest.len() == 0 {
        assert(number(rest, 10) == 0);
        assert(s =~= zeros(0) + decimal(v));
        0
    } else {
        assert forall|i: int| 0 <= i < rest.len() implies digit_value(#[trigger] rest[i]) < 10 by {
            assert(rest[i] == s[i]);
        }
        let k = lemma_decimal_row(rest);
        let n = number(rest, 10);
        if n == 0 {
            assert(decimal(0) =~= seq!['0']);
            assert(rest =~= zeros(k + 1));
            assert(s =~= zeros(k + 1) + decimal(v));
            k + 1
        } else {
            assert(decimal(n * 10 + v) =~= decimal(n).push(last)) by {
                assert((n * 10 + v) / 10 == n && (n * 10 + v) % 10 == v);
            }
            assert(s =~= rest.push(last));
            assert((zeros(k) + decimal(n)).push(last) =~= zeros(k) + decimal(n).push(last));
            k
        }
    }
}

proof fn lemma_zeros_before(k: nat, s: Seq<char>, radix: nat)
    requires
        radix >= 2,
        all_digits(s, radix),
    ensures
        number(zeros(k) + s, radix) == number(s, radix),
        all_digits(zeros(k) + s, radix),
    decreases s.len(),
{
    let all = zeros(k) + s;
    assert forall|i: int| 0 <= i < all.len() implies digit_value(#[trigger] all[i]) < radix by {
        if i < k {
            assert(all[i] == '0');
        } else {
            assert(all[i] == s[i - k]);
        }
    }
    if s.len() == 0 {
        assert(all =~= zeros(k));
        lemma_zeros(k, radix);
    } else {
        let rest = s.drop_last();
        assert forall|i: int| 0 <= i < rest.len() implies digit_value(#[trigger] rest[i])
            < radix by {
            assert(rest[i] == s[i]);
        }
        lemma_zeros_before(k, rest, radix);
        assert(all.drop_last() =~= zeros(k) + rest);
    }
}

proof fn lemma_zeros(k: nat, radix: nat)
    ensures
        number(zeros(k), radix) == 0,
    decreases k,
{
    if k > 0 {
        let less = (k - 1) as nat;
        lemma_zeros(less, radix);
        assert(zeros(k).drop_last() =~= zeros(less));
        assert(0 * radix == 0) by (nonlinear_arith);
    }
}

/// A text is read as a decimal number exactly where it is the usual numeral of a
/// number up to the limit, behind any zeros, behind a plus sign or none.
pub proof fn law_decimal_numerals(s: Seq<char>, n: nat, max: nat)
    ensures
        parse_number(s, 10, max) == Some(n) <==> n <= max && exists|k: nat|
            s == #[trigger] zeros(k) + decimal(n) || s == seq!['+'] + (zeros(k) + decimal(n)),
{
    let d = numeral_digits(s);
    lemma_decimal(n);
    if parse_number(s, 10, max) == Some(n) {
        let k = lemma_decimal_row(d);
        if s.len() > 0 && s[0] == '+' {
            assert(s =~= seq!['+'] + d);
        }
        assert(d == zeros(k) + decimal(n));
    }
    if n <= max && exists|k: nat|
        s == #[trigger] zeros(k) + decimal(n) || s == seq!['+'] + (zeros(k) + decimal(n)) {
        let k = choose|k: nat|
            s == #[trigger] zeros(k) + decimal(n) || s == seq!['+'] + (zeros(k) + decimal(n));
        let row = zeros(k) + decimal(n);
        lemma_zeros_before(k, decimal(n), 10);
        assert(row[0] != '+') by {
            if k == 0 {
                assert(row[0] == decimal(n)[0]);
            }
        }
        if s == seq!['+'] + row {
            assert(s.drop_first() =~= row);
        }
        assert(d == row);
    }
}

/// The numeral of a number starts with a zero only for zero.
pub proof fn law_decimal_has_no_leading_zero(n: nat)
    ensures
        decimal(n)[0] == '0' ==> n == 0,
        forall|i: int| 0 <= i < decimal(n).len() ==> '0' <= #[trigger] decimal(n)[i] <= '9',
    decreases n,
{
    lemma_decimal(n);
    if n >= 10 {
        law_decimal_has_no_leading_zero(n / 10);
        lemma_decimal(n / 10);
    }
}

proof fn lemma_hex_row(s: Seq<char>) -> (k: nat)
    requires
        s.len() > 0,
        all_digits(s, 16),
    ensures
        ascii_lower(s) == zeros(k) + hexadecimal(number(s, 16), false),
    decreases s.len(),
{
    let rest = s.drop_last();
    let last = s.last();
    let v = digit_value(last);
    assert(digit_value(s[s.len() - 1]) < 16);
    let low = ascii_lower_char(last);
    assert(low == hex_digit_char(v, false));
    assert(ascii_lower(s) =~= ascii_lower(rest).push(low));
    if rest.len() == 0 {
        assert(number(rest, 16) == 0);
        assert(ascii_lower(s) =~= zeros(0) + hexadecimal(v, false));
        0
    } else {
        assert forall|i: int| 0 <= i < rest.len() implies digit_value(#[trigger] rest[i]) < 16 by {
            assert(rest[i] == s[i]);
        }
        let k = lemma_hex_row(rest);
        let n = number(rest, 16);
        if n == 0 {
            assert(hexadecimal(0, false) =~= seq!['0']);
            assert(ascii_lower(rest) =~= zeros(k + 1));
            assert(ascii_lower(s) =~= zeros(k + 1) + hexadecimal(v, false));
            k + 1
        } else {
            assert(hexadecimal(n * 16 + v, false) =~= hexadecimal(n, false).push(low)) by {
                assert((n * 16 + v) / 16 == n && (n * 16 + v) % 16 == v);
            }
            assert(ascii_lower(s) =~= zeros(k) + hexadecimal(n * 16 + v, false));
            k
        }
    }
}

proof fn lemma_number_in_lower_case(s: Seq<char>)
    requires
        all_digits(ascii_lower(s), 16),
    ensures
        all_digits(s, 16),
        number(s, 16) == number(ascii_lower(s), 16),
    decreases s.len(),
{
    let low = ascii_lower(s);
    assert forall|i: int| 0 <= i < s.len() implies digit_value(#[trigger] s[i]) < 16 by {
        assert(digit_value(low[i]) < 16);
        assert(low[i] == ascii_lower_char(s[i]));
    }
    if s.len() > 0 {
        let rest = s.drop_last();
        assert(ascii_lower(rest) =~= low.drop_last());
        assert forall|i: int| 0 <= i < low.drop_last().len() implies digit_value(
            #[trigger] low.drop_last()[i],
        ) < 16 by {
            assert(low.drop_last()[i] == low[i]);
        }
        lemma_number_in_lower_case(rest);
        assert(digit_value(s[s.len() - 1]) < 16);
        assert(low.last() == ascii_lower_char(s.last()));
        assert(digit_value(low.last()) == digit_value(s.last()));
    }
}

/// A text is read as a hexadecimal number exactly where it is, in lower case, the
/// usual numeral of a number up to the limit, behind any zeros, behind a plus sign
/// or none.
pub proof fn law_hexadecimal_numerals(s: Seq<char>, n: nat, max: nat)
    ensures
        parse_number(s, 16, max) == Some(n) <==> n <= max && exists|k: nat|
            ascii_lower(s) == #[trigger] zeros(k) + hexadecimal(n, false) || ascii_lower(s)
                == seq!['+'] + (zeros(k) + hexadecimal(n, false)),
{
    let d = numeral_digits(s);
    let low = ascii_lower(s);
    lemma_hexadecimal(n, false);
    if parse_number(s, 16, max) == Some(n) {
        let k = lemma_hex_row(d);
        if s[0] == '+' {
            assert(low =~= seq!['+'] + ascii_lower(d));
        }
        assert(ascii_lower(d) == zeros(k) + hexadecimal(number(d, 16), false));
    }
    if n <= max && exists|k: nat|
        low == #[trigger] zeros(k) + hexadecimal(n, false) || low == seq!['+'] + (zeros(k)
            + hexadecimal(n, false)) {
        let k = choose|k: nat|
            low == #[trigger] zeros(k) + hexadecimal(n, false) || low == seq!['+'] + (zeros(k)
                + hexadecimal(n, false));
        let row = zeros(k) + hexadecimal(n, false);
        lemma_zeros_before(k, hexadecimal(n, false), 16);
        assert(row.len() > 0);
        assert(row[0] != '+') by {
            if k == 0 {
                assert(row[0] == hexadecimal(n, false)[0]);
            }
        }
        assert(low.len() == s.len() && low.len() > 0);
        assert(low[0] == ascii_lower_char(s[0]));
        if low == row {
            assert(d == s);
            lemma_number_in_lower_case(s);
        } else {
            assert(low[0] == '+');
            assert(s[0] == '+');
            assert(ascii_lower(d) =~= row) by {
                assert(low.drop_first() =~= row);
                assert(ascii_lower(s.drop_first()) =~= low.drop_first());
            }
            lemma_number_in_lower_case(d);
        }
        assert(d.len() > 0);
    }
}

/// In the lower case of an ASCII text each capital letter is the small one of the
/// same place in the alphabet, and all else is as it was.
pub proof fn law_lower_case_of_ascii(s: Seq<char>, i: int)
    requires
        is_ascii_chars(s),
        0 <= i < s.len(),
    ensures
        lower(s).len() == s.len(),
        'A' <= s[i] <= 'Z' ==> 'a' <= lower(s)[i] <= 'z' && lower(s)[i] as int - 'a' as int == s[i]
            as int - 'A' as int,
        !('A' <= s[i] <= 'Z') ==> lower(s)[i] == s[i],
{
}

/// A text is read from its own bytes, and bytes that are UTF-8 as what they
/// encode.
pub proof fn law_text_is_read_from_bytes(text: Seq<char>, bytes: Seq<u8>)
    ensures
        lossy_text(encode_utf8(text)) == text,
        valid_utf8(bytes) ==> lossy_text(bytes) == decode_utf8(bytes),
{
    encode_utf8_valid_utf8(text);
    encode_utf8_decode_utf8(text);
}

/// Texts one behind the other are the same text, however they are grouped.
pub proof fn lemma_regroup(x: Seq<char>, a: Seq<char>, b: Seq<char>, c: Seq<char>)
    ensures
        x + (a + b + c) == x + a + b + c,
        x + a + b + c == x + a + (b + c),
{
    assert(x + (a + b + c) =~= x + a + b + c);
    assert(x + a + b + c =~= x + a + (b + c));
}


}
