//! Text: what the rest of the library says of characters and strings.
//!
//! A string is modelled by the sequence of its characters. The specification
//! functions here say what splitting, trimming, lower-casing, decimal numerals
//! and the reading of numerals mean on such sequences.

use vstd::prelude::*;
use vstd::string::*;
use vstd::utf8::{decode_utf8, is_ascii_chars, valid_utf8};

verus! {

/// The comparison of two string slices by `==` (`<str as PartialEq>::eq`):
/// they are equal exactly when they hold the same characters.
pub assume_specification[ <str as PartialEq>::eq ](a: &str, b: &str) -> (r: bool)
    ensures
        r == (a@ == b@),
;

/// `String::push` puts one character behind the text.
pub assume_specification[ String::push ](s: &mut String, c: char)
    ensures
        final(s)@ == old(s)@.push(c),
;

/// The characters with the Unicode property White_Space.
pub open spec fn white_space(c: char) -> bool {
    let u = c as u32;
    ||| 0x9 <= u <= 0xd
    ||| u == 0x20
    ||| u == 0x85
    ||| u == 0xa0
    ||| u == 0x1680
    ||| 0x2000 <= u <= 0x200a
    ||| u == 0x2028
    ||| u == 0x2029
    ||| u == 0x202f
    ||| u == 0x205f
    ||| u == 0x3000
}

/// `char::is_whitespace` tells whether a character has the Unicode property
/// White_Space.
pub assume_specification[ char::is_whitespace ](c: char) -> (r: bool)
    ensures
        r == white_space(c),
;

/// What an ASCII letter becomes in lower case; other characters stay.
pub open spec fn ascii_lower_char(c: char) -> char {
    if 'A' <= c <= 'Z' {
        ((c as u32) + 32) as char
    } else {
        c
    }
}

/// A text with its ASCII letters in lower case.
pub open spec fn ascii_lower(s: Seq<char>) -> Seq<char> {
    s.map_values(|c: char| ascii_lower_char(c))
}

/// What `str::to_lowercase` makes of a text that has a character beyond ASCII.
pub uninterp spec fn unicode_lower(s: Seq<char>) -> Seq<char>;

/// The lower case of a text: letter by letter where all of it is ASCII, and
/// what Unicode's case mapping makes of it otherwise.
pub open spec fn lower(s: Seq<char>) -> Seq<char> {
    if is_ascii_chars(s) {
        ascii_lower(s)
    } else {
        unicode_lower(s)
    }
}

/// `str::to_lowercase`: the lower case of the text by Unicode's mapping. Of an
/// ASCII text only the letters `A` to `Z` change, each to its small form. What
/// comes of any other text is named, and depends on the text alone. Unicode maps
/// no other character to a colon, so there is one in the lower case only where
/// there is one in the text. Nothing more is said of texts beyond ASCII.
#[verifier::external_body]
pub(crate) fn to_lower(s: &str) -> (r: String)
    ensures
        is_ascii_chars(s@) ==> r@ == ascii_lower(s@),
        !is_ascii_chars(s@) ==> r@ == unicode_lower(s@),
        r@.contains(':') ==> s@.contains(':'),
{
    s.to_lowercase()
}

/// What `String::from_utf8_lossy` makes of bytes that are not UTF-8.
pub uninterp spec fn replaced_text(bytes: Seq<u8>) -> Seq<char>;

/// The text that bytes stand for: what they encode where they are UTF-8, and
/// otherwise what is left once all that is not was replaced.
pub open spec fn lossy_text(bytes: Seq<u8>) -> Seq<char> {
    if valid_utf8(bytes) {
        decode_utf8(bytes)
    } else {
        replaced_text(bytes)
    }
}

/// `String::from_utf8_lossy`: the text that the bytes encode in UTF-8. What comes
/// of bytes that are not UTF-8 is named, and depends on the bytes alone.
#[verifier::external_body]
pub(crate) fn from_utf8_lossy(bytes: &[u8]) -> (r: String)
    ensures
        valid_utf8(bytes@) ==> r@ == decode_utf8(bytes@),
        !valid_utf8(bytes@) ==> r@ == replaced_text(bytes@),
{
    String::from_utf8_lossy(bytes).into_owned()
}

fn ascii_lower_of(c: char) -> (r: char)
    ensures
        r == ascii_lower_char(c),
{
    if 'A' <= c && c <= 'Z' {
        (c as u8 + 32u8) as char
    } else {
        c
    }
}

/// Whether two texts are the same but for the case of ASCII letters.
pub(crate) fn same_ignoring_case(a: &str, b: &str) -> (r: bool)
    ensures
        r == (ascii_lower(a@) == ascii_lower(b@)),
{
    let x = chars_of(a);
    let y = chars_of(b);
    if x.len() != y.len() {
        assert(ascii_lower(a@).len() != ascii_lower(b@).len());
        return false;
    }
    let mut i: usize = 0;
    while i < x.len()
        invariant
            x@ == a@,
            y@ == b@,
            x@.len() == y@.len(),
            i <= x@.len(),
            forall|j: int| 0 <= j < i ==> ascii_lower(a@)[j] == ascii_lower(b@)[j],
        decreases x@.len() - i,
    {
        if ascii_lower_of(x[i]) != ascii_lower_of(y[i]) {
            assert(ascii_lower(a@)[i as int] != ascii_lower(b@)[i as int]);
            return false;
        }
        i = i + 1;
    }
    assert(ascii_lower(a@) =~= ascii_lower(b@));
    true
}

/// The place of the first `c` in `s`; the length of `s` where there is none.
pub open spec fn first_place(s: Seq<char>, c: char) -> int
    decreases s.len(),
{
    if s.len() == 0 || s[0] == c {
        0
    } else {
        1 + first_place(s.drop_first(), c)
    }
}

/// What stands before the first `c`; all of `s` where there is none.
pub open spec fn before_first(s: Seq<char>, c: char) -> Seq<char> {
    s.take(first_place(s, c))
}

/// The pieces of `s` between the occurrences of `c`. There is always at least
/// one piece, and none of them holds a `c`.
pub open spec fn split(s: Seq<char>, c: char) -> Seq<Seq<char>>
    decreases s.len(),
{
    if 0 <= first_place(s, c) < s.len() {
        seq![before_first(s, c)] + split(s.skip(first_place(s, c) + 1), c)
    } else {
        seq![s]
    }
}

/// `first_place` is where the first occurrence stands, if there is one.
pub proof fn lemma_first_place(s: Seq<char>, c: char)
    ensures
        0 <= first_place(s, c) <= s.len(),
        forall|i: int| 0 <= i < first_place(s, c) ==> s[i] != c,
        first_place(s, c) < s.len() ==> s[first_place(s, c)] == c,
        s.contains(c) <==> first_place(s, c) < s.len(),
    decreases s.len(),
{
    if s.len() > 0 && s[0] != c {
        let t = s.drop_first();
        lemma_first_place(t, c);
        assert forall|i: int| 0 <= i < first_place(s, c) implies s[i] != c by {
            if i > 0 {
                assert(t[i - 1] == s[i]);
            }
        }
        if s.contains(c) {
            let j = choose|j: int| 0 <= j < s.len() && s[j] == c;
            assert(t[j - 1] == c);
        }
        if first_place(t, c) < t.len() {
            assert(s[first_place(t, c) + 1] == c);
        }
    }
}

/// A place behind which no earlier `c` stands, and which holds a `c` or is the
/// end, is the first place.
pub proof fn lemma_first_place_is(s: Seq<char>, c: char, n: int)
    requires
        0 <= n <= s.len(),
        forall|i: int| 0 <= i < n ==> s[i] != c,
        n < s.len() ==> s[n] == c,
    ensures
        first_place(s, c) == n,
{
    lemma_first_place(s, c);
    let m = first_place(s, c);
    if m < n {
        assert(s[m] != c);
    }
    if n < m {
        assert(s[n] != c);
    }
}

/// A text that holds no `c` is its own only piece.
pub proof fn lemma_split_none(s: Seq<char>, c: char)
    requires
        !s.contains(c),
    ensures
        split(s, c) == seq![s],
        first_place(s, c) == s.len(),
{
    lemma_first_place(s, c);
}

/// What stands before the first `c` is the first piece, and the other pieces are
/// those of what follows it.
pub proof fn lemma_split_at(a: Seq<char>, b: Seq<char>, c: char)
    requires
        !a.contains(c),
    ensures
        first_place(a + seq![c] + b, c) == a.len(),
        (a + seq![c] + b).contains(c),
        split(a + seq![c] + b, c) == seq![a] + split(b, c),
{
    let s = a + seq![c] + b;
    let n = a.len() as int;
    assert(s[n] == c);
    assert forall|i: int| 0 <= i < n implies s[i] != c by {
        assert(s[i] == a[i]);
    }
    lemma_first_place_is(s, c, n);
    assert(s.take(n) =~= a);
    assert(s.skip(n + 1) =~= b);
}

/// The characters of a string.
pub(crate) fn chars_of(s: &str) -> (r: Vec<char>)
    ensures
        r@ == s@,
{
    let mut r: Vec<char> = Vec::new();
    for c in it: s.chars()
        invariant
            r@ == it.seq().take(it.index() as int),
    {
        r.push(c);
    }
    r
}

/// The place of the first `c`.
pub(crate) fn find_char(s: &str, c: char) -> (r: usize)
    ensures
        r == first_place(s@, c),
        r <= s@.len(),
{
    let chars = chars_of(s);
    let mut i: usize = 0;
    while i < chars.len() && chars[i] != c
        invariant
            chars@ == s@,
            i <= chars@.len(),
            forall|j: int| 0 <= j < i ==> chars@[j] != c,
        decreases chars@.len() - i,
    {
        i = i + 1;
    }
    proof {
        lemma_first_place_is(s@, c, i as int);
    }
    i
}

/// What stands before the first `c`.
pub(crate) fn text_before<'a>(s: &'a str, c: char) -> (r: &'a str)
    ensures
        r@ == before_first(s@, c),
{
    let n = find_char(s, c);
    s.substring_char(0, n)
}

/// The pieces of a text between the occurrences of `c`.
pub(crate) fn split_text(s: &str, c: char) -> (r: Vec<String>)
    ensures
        r@.map_values(|p: String| p@) == split(s@, c),
{
    let mut parts: Vec<String> = Vec::new();
    let mut rest: &str = s;
    let ghost view = |p: String| p@;
    loop
        invariant
            view == (|p: String| p@),
            parts@.map_values(view) + split(rest@, c) == split(s@, c),
        decreases rest@.len(),
    {
        let n = find_char(rest, c);
        let len = rest.unicode_len();
        if n == len {
            let ghost before = parts@.map_values(view);
            parts.push(rest.to_owned());
            assert(parts@.map_values(view) =~= before + seq![rest@]);
            return parts;
        }
        let ghost before = parts@.map_values(view);
        let ghost old_rest = rest@;
        parts.push(rest.substring_char(0, n).to_owned());
        rest = rest.substring_char(n + 1, len);
        proof {
            assert(rest@ == old_rest.skip(n + 1));
            assert(parts@.map_values(view) =~= before + seq![before_first(old_rest, c)]);
            assert(before + (seq![before_first(old_rest, c)] + split(rest@, c)) =~= (before + seq![
                before_first(old_rest, c),
            ]) + split(rest@, c));
        }
    }
}

/// A text without the white space that it starts with.
pub open spec fn trim_start(s: Seq<char>) -> Seq<char>
    decreases s.len(),
{
    if s.len() > 0 && white_space(s[0]) {
        trim_start(s.drop_first())
    } else {
        s
    }
}

/// A text without the white space that it ends with.
pub open spec fn trim_end(s: Seq<char>) -> Seq<char>
    decreases s.len(),
{
    if s.len() > 0 && white_space(s.last()) {
        trim_end(s.drop_last())
    } else {
        s
    }
}

/// A text without the white space around it.
pub open spec fn trim(s: Seq<char>) -> Seq<char> {
    trim_end(trim_start(s))
}

/// How many characters stand before the first white space.
pub open spec fn word_length(s: Seq<char>) -> int
    decreases s.len(),
{
    if s.len() == 0 || white_space(s[0]) {
        0
    } else {
        1 + word_length(s.drop_first())
    }
}

/// The words of a text: its longest runs of characters other than white space.
pub open spec fn words(s: Seq<char>) -> Seq<Seq<char>>
    decreases s.len(),
{
    if s.len() == 0 {
        seq![]
    } else if white_space(s[0]) {
        words(s.drop_first())
    } else if 0 < word_length(s) <= s.len() {
        seq![s.take(word_length(s))] + words(s.skip(word_length(s)))
    } else {
        seq![]
    }
}

/// A text without the white space around it.
pub(crate) fn trim_text<'a>(s: &'a str) -> (r: &'a str)
    ensures
        r@ == trim(s@),
{
    let chars = chars_of(s);
    let mut from: usize = 0;
    assert(s@.skip(0) =~= s@);
    while from < chars.len() && chars[from].is_whitespace()
        invariant
            chars@ == s@,
            from <= chars@.len(),
            trim_start(s@.skip(from as int)) == trim_start(s@),
        decreases chars@.len() - from,
    {
        assert(s@.skip(from as int).drop_first() =~= s@.skip(from + 1));
        from = from + 1;
    }
    let ghost t = s@.skip(from as int);
    assert(trim_start(s@) == t);
    let mut to: usize = chars.len();
    assert(s@.subrange(from as int, to as int) =~= t);
    while to > from && chars[to - 1].is_whitespace()
        invariant
            chars@ == s@,
            from <= to <= chars@.len(),
            trim_end(s@.subrange(from as int, to as int)) == trim_end(t),
        decreases to,
    {
        assert(s@.subrange(from as int, to as int).drop_last() =~= s@.subrange(
            from as int,
            to - 1,
        ));
        to = to - 1;
    }
    s.substring_char(from, to)
}

/// The first word of a text is as long as its first characters other than white
/// space, up to white space or the end.
pub proof fn lemma_word_length(s: Seq<char>, n: int)
    requires
        0 <= n <= s.len(),
        forall|i: int| 0 <= i < n ==> !white_space(#[trigger] s[i]),
        n < s.len() ==> white_space(s[n]),
    ensures
        word_length(s) == n,
    decreases s.len(),
{
    if n > 0 {
        let t = s.drop_first();
        assert(!white_space(s[0]));
        assert forall|i: int| 0 <= i < n - 1 implies !white_space(#[trigger] t[i]) by {
            assert(t[i] == s[i + 1]);
        }
        if n < s.len() {
            assert(t[n - 1] == s[n]);
        }
        lemma_word_length(t, n - 1);
    }
}

/// The words of a text.
pub(crate) fn words_of(s: &str) -> (r: Vec<String>)
    ensures
        r@.map_values(|p: String| p@) == words(s@),
{
    let chars = chars_of(s);
    let mut parts: Vec<String> = Vec::new();
    let mut at: usize = 0;
    let ghost view = |p: String| p@;
    assert(s@.skip(0) =~= s@);
    assert(parts@.map_values(view) + words(s@) =~= words(s@));
    while at < chars.len()
        invariant
            chars@ == s@,
            at <= chars@.len(),
            view == (|p: String| p@),
            parts@.map_values(view) + words(s@.skip(at as int)) == words(s@),
        decreases chars@.len() - at,
    {
        let ghost rest = s@.skip(at as int);
        if chars[at].is_whitespace() {
            assert(rest.drop_first() =~= s@.skip(at + 1));
            at = at + 1;
        } else {
            let mut end: usize = at + 1;
            while end < chars.len() && !chars[end].is_whitespace()
                invariant
                    chars@ == s@,
                    at < end <= chars@.len(),
                    forall|i: int| at <= i < end ==> !white_space(#[trigger] chars@[i]),
                decreases chars@.len() - end,
            {
                end = end + 1;
            }
            let ghost before = parts@.map_values(view);
            let ghost n = end - at;
            proof {
                assert forall|i: int| 0 <= i < n implies !white_space(rest[i]) by {
                    assert(rest[i] == chars@[at + i]);
                }
                if n < rest.len() {
                    assert(rest[n] == chars@[end as int]);
                }
                lemma_word_length(rest, n);
                assert(rest.take(n) =~= s@.subrange(at as int, end as int));
                assert(rest.skip(n) =~= s@.skip(end as int));
            }
            parts.push(s.substring_char(at, end).to_owned());
            proof {
                assert(parts@.map_values(view) =~= before + seq![rest.take(n)]);
                assert(before + (seq![rest.take(n)] + words(rest.skip(n))) =~= (before + seq![
                    rest.take(n),
                ]) + words(rest.skip(n)));
            }
            at = end;
        }
    }
    assert(s@.skip(at as int) =~= Seq::empty());
    assert(parts@.map_values(view) + Seq::empty() =~= parts@.map_values(view));
    parts
}

/// The place of the last `c` in `s`; -1 where there is none.
pub open spec fn last_place(s: Seq<char>, c: char) -> int
    decreases s.len(),
{
    if s.len() == 0 {
        -1
    } else if s.last() == c {
        s.len() - 1
    } else {
        last_place(s.drop_last(), c)
    }
}

/// What stands before the last `c`; all of `s` where there is none.
pub open spec fn before_last(s: Seq<char>, c: char) -> Seq<char> {
    if last_place(s, c) < 0 {
        s
    } else {
        s.take(last_place(s, c))
    }
}

/// What stands before the last `c`.
pub(crate) fn text_before_last<'a>(s: &'a str, c: char) -> (r: &'a str)
    ensures
        r@ == before_last(s@, c),
{
    let chars = chars_of(s);
    let mut i: usize = chars.len();
    assert(s@.take(i as int) =~= s@);
    while i > 0
        invariant
            chars@ == s@,
            i <= chars@.len(),
            last_place(s@, c) == last_place(s@.take(i as int), c),
        decreases i,
    {
        assert(s@.take(i as int).drop_last() =~= s@.take(i - 1));
        assert(s@.take(i as int).last() == chars@[i - 1]);
        if chars[i - 1] == c {
            return s.substring_char(0, i - 1);
        }
        i = i - 1;
    }
    s
}

/// Whether a text starts with another.
pub(crate) fn has_prefix(s: &str, p: &str) -> (r: bool)
    ensures
        r == p@.is_prefix_of(s@),
{
    let n = p.unicode_len();
    if s.unicode_len() < n {
        return false;
    }
    let head = s.substring_char(0, n);
    *head == *p
}

/// Whether a text ends with another.
pub(crate) fn has_suffix(s: &str, p: &str) -> (r: bool)
    ensures
        r == p@.is_suffix_of(s@),
{
    let n = p.unicode_len();
    let len = s.unicode_len();
    if len < n {
        return false;
    }
    let tail = s.substring_char(len - n, len);
    *tail == *p
}

/// What follows the first `n` characters.
pub(crate) fn text_after<'a>(s: &'a str, n: usize) -> (r: &'a str)
    requires
        n <= s@.len(),
    ensures
        r@ == s@.skip(n as int),
{
    let len = s.unicode_len();
    let r = s.substring_char(n, len);
    assert(r@ =~= s@.skip(n as int));
    r
}

/// Two texts, one behind the other.
pub(crate) fn concat(a: &str, b: &str) -> (r: String)
    ensures
        r@ == a@ + b@,
{
    let mut r = a.to_owned();
    r.append(b);
    r
}

/// Three texts, one behind the other.
pub(crate) fn concat3(a: &str, b: &str, c: &str) -> (r: String)
    ensures
        r@ == a@ + b@ + c@,
{
    let mut r = concat(a, b);
    r.append(c);
    r
}

/// The character that stands for a digit below ten.
pub open spec fn digit_char(d: nat) -> char {
    (48 + d) as char
}

/// The character that stands for a digit below sixteen, in capitals or not.
pub open spec fn hex_digit_char(d: nat, capitals: bool) -> char {
    if d < 10 {
        digit_char(d)
    } else if capitals {
        (55 + d) as char
    } else {
        (87 + d) as char
    }
}

/// The hexadecimal numeral of a number, without leading zeros, in capitals or
/// not.
pub open spec fn hexadecimal(n: nat, capitals: bool) -> Seq<char>
    decreases n,
{
    if n < 16 {
        seq![hex_digit_char(n, capitals)]
    } else {
        hexadecimal(n / 16, capitals).push(hex_digit_char(n % 16, capitals))
    }
}

/// The decimal numeral of a number, without leading zeros.
pub open spec fn decimal(n: nat) -> Seq<char>
    decreases n,
{
    if n < 10 {
        seq![digit_char(n)]
    } else {
        decimal(n / 10).push(digit_char(n % 10))
    }
}

fn digit_of(d: u8) -> (r: char)
    requires
        d < 10,
    ensures
        r == digit_char(d as nat),
{
    (48u8 + d) as char
}

/// The decimal numeral of a number.
pub(crate) fn decimal_text(n: usize) -> (r: String)
    ensures
        r@ == decimal(n as nat),
    decreases n,
{
    if n < 10 {
        let mut r = String::new();
        r.push(digit_of(n as u8));
        assert(r@ =~= decimal(n as nat));
        r
    } else {
        let mut r = decimal_text(n / 10);
        r.push(digit_of((n % 10) as u8));
        r
    }
}

/// The value of a character as a digit: `0` to `9`, and `a` to `f` in either
/// case for ten to fifteen.
pub open spec fn digit_value(c: char) -> nat {
    if '0' <= c <= '9' {
        (c as u32 - 48) as nat
    } else if 'a' <= c <= 'f' {
        (c as u32 - 87) as nat
    } else if 'A' <= c <= 'F' {
        (c as u32 - 55) as nat
    } else {
        16
    }
}

/// Whether all of a text is digits of a radix up to sixteen.
pub open spec fn all_digits(s: Seq<char>, radix: nat) -> bool {
    forall|i: int| 0 <= i < s.len() ==> digit_value(#[trigger] s[i]) < radix
}

/// The number that a row of digits stands for.
pub open spec fn number(s: Seq<char>, radix: nat) -> nat
    decreases s.len(),
{
    if s.len() == 0 {
        0
    } else {
        number(s.drop_last(), radix) * radix + digit_value(s.last())
    }
}

/// The digits of a numeral: a plus sign before them is allowed and left out.
pub open spec fn numeral_digits(s: Seq<char>) -> Seq<char> {
    if s.len() > 0 && s[0] == '+' {
        s.drop_first()
    } else {
        s
    }
}

/// The number that a text stands for as a numeral of that radix: digits alone,
/// at least one, behind an optional plus sign, and no more than `max`.
pub open spec fn parse_number(s: Seq<char>, radix: nat, max: nat) -> Option<nat> {
    let d = numeral_digits(s);
    if d.len() > 0 && all_digits(d, radix) && number(d, radix) <= max {
        Some(number(d, radix))
    } else {
        None
    }
}

proof fn lemma_number_prefix(s: Seq<char>, radix: nat, n: int)
    requires
        0 <= n <= s.len(),
        radix >= 1,
    ensures
        number(s.take(n), radix) <= number(s, radix),
    decreases s.len(),
{
    if n == s.len() {
        assert(s.take(n) =~= s);
    } else {
        let t = s.drop_last();
        lemma_number_prefix(t, radix, n);
        assert(t.take(n) =~= s.take(n));
        assert(number(t, radix) * radix >= number(t, radix)) by (nonlinear_arith)
            requires
                radix >= 1,
        ;
    }
}

fn digit_value_of(c: char) -> (r: usize)
    ensures
        r == digit_value(c),
{
    if '0' <= c && c <= '9' {
        (c as u32 - 48) as usize
    } else if 'a' <= c && c <= 'f' {
        (c as u32 - 87) as usize
    } else if 'A' <= c && c <= 'F' {
        (c as u32 - 55) as usize
    } else {
        16
    }
}

/// The number that a text stands for as a numeral of that radix, where it fits.
pub(crate) fn number_of(s: &str, radix: usize) -> (r: Option<usize>)
    requires
        2 <= radix <= 16,
    ensures
        match r {
            Some(n) => parse_number(s@, radix as nat, usize::MAX as nat) == Some(n as nat),
            None => parse_number(s@, radix as nat, usize::MAX as nat) is None,
        },
{
    let chars = chars_of(s);
    let start: usize = if chars.len() > 0 && chars[0] == '+' {
        1
    } else {
        0
    };
    let ghost d = numeral_digits(s@);
    assert(d =~= s@.skip(start as int));
    if chars.len() == start {
        return None;
    }
    let mut value: usize = 0;
    let mut i: usize = start;
    while i < chars.len()
        invariant
            2 <= radix <= 16,
            chars@ == s@,
            start <= i <= chars@.len(),
            start < chars@.len(),
            d == numeral_digits(s@),
            d =~= s@.skip(start as int),
            all_digits(d.take(i - start), radix as nat),
            value == number(d.take(i - start), radix as nat),
        decreases chars@.len() - i,
    {
        let ghost n = i - start;
        let v = digit_value_of(chars[i]);
        assert(d[n] == chars@[i as int]);
        if v >= radix {
            return None;
        }
        assert(d.take(n + 1).drop_last() =~= d.take(n));
        assert(d.take(n + 1).last() == d[n]);
        proof {
            lemma_number_prefix(d, radix as nat, n + 1);
        }
        match value.checked_mul(radix) {
            None => {
                return None;
            },
            Some(scaled) => match scaled.checked_add(v) {
                None => {
                    return None;
                },
                Some(next) => {
                    assert forall|j: int| 0 <= j < n + 1 implies digit_value(
                        #[trigger] d.take(n + 1)[j],
                    ) < radix by {
                        if j < n {
                            assert(d.take(n)[j] == d.take(n + 1)[j]);
                        }
                    }
                    value = next;
                },
            },
        }
        i = i + 1;
    }
    assert(d.take(d.len() as int) =~= d);
    Some(value)
}

}
