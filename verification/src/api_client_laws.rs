//! What holds of the client's side of the control interface.

use crate::api::{carried_token, create_step, status_number, ApiView, StatusCode};
use crate::api_client::{
    announced_length, derived_api_addr, health_request, is_up, registration, registration_request,
    request_text, service_request, size_or_zero, status_code, success, ApiClientView, HttpResponse,
    HttpResponseView, Need, ReaderView, ResponseReader, ServiceInfo, ServiceInfoView,
};
use crate::config::{law_type_text_names_type, named_type, ClientServiceView, ServiceType};
use crate::text::{
    all_digits, ascii_lower, before_first, before_last, decimal, digit_value, hexadecimal,
    last_place, lemma_split_at, lemma_word_length, lossy_text, lower, number, parse_number, split,
    trim, trim_start, white_space, words,
};
use crate::text_laws::{join, law_words, lemma_regroup};
use vstd::prelude::*;
use vstd::utf8::{encode_utf8, encode_utf8_decode_utf8, encode_utf8_valid_utf8, is_ascii_chars};

verus! {

/// A piece of an answer.
pub enum Piece {
    Line(Seq<char>),
    Bytes(Seq<u8>),
    Skipped,
}

/// Whether a piece is the one that a reader needs.
pub open spec fn fits(need: Need, piece: Piece) -> bool {
    match piece {
        Piece::Line(_) => need == Need::Line,
        Piece::Bytes(bytes) => need is Bytes && need->Bytes_0 == bytes.len(),
        Piece::Skipped => need is Skip,
    }
}

/// How far an answer is read with one piece more.
pub open spec fn with_piece(reader: ReaderView, piece: Piece) -> Result<ReaderView, Seq<char>> {
    match piece {
        Piece::Line(line) => reader.with_line(line),
        Piece::Bytes(bytes) => Ok(reader.with_bytes(bytes)),
        Piece::Skipped => Ok(reader.with_skip()),
    }
}

/// How far an answer is read with these pieces more, where each is the one that
/// is needed.
pub open spec fn with_pieces(reader: ReaderView, pieces: Seq<Piece>) -> Option<
    Result<ReaderView, Seq<char>>,
>
    decreases pieces.len(),
{
    if pieces.len() == 0 {
        Some(Ok(reader))
    } else if !fits(reader.need(), pieces[0]) {
        None
    } else {
        match with_piece(reader, pieces[0]) {
            Ok(next) => with_pieces(next, pieces.drop_first()),
            Err(e) => Some(Err(e)),
        }
    }
}

/// A chunk: the line that gives its size, and its bytes.
pub struct Chunk {
    pub size_line: Seq<char>,
    pub bytes: Seq<u8>,
}

/// Whether the size of each chunk is given, and is not zero.
pub open spec fn sized(chunks: Seq<Chunk>) -> bool {
    forall|i: int|
        0 <= i < chunks.len() ==> (#[trigger] chunks[i]).bytes.len() > 0 && size_or_zero(
            chunks[i].size_line,
            16,
        ) == chunks[i].bytes.len()
}

/// The pieces of chunks.
pub open spec fn chunk_pieces(chunks: Seq<Chunk>) -> Seq<Piece>
    decreases chunks.len(),
{
    if chunks.len() == 0 {
        seq![]
    } else {
        seq![Piece::Line(chunks[0].size_line), Piece::Bytes(chunks[0].bytes), Piece::Skipped]
            + chunk_pieces(chunks.drop_first())
    }
}

/// The texts of chunks, one behind the other.
pub open spec fn chunk_text(chunks: Seq<Chunk>) -> Seq<char>
    decreases chunks.len(),
{
    if chunks.len() == 0 {
        seq![]
    } else {
        lossy_text(chunks[0].bytes) + chunk_text(chunks.drop_first())
    }
}

/// A body in chunks is read as the texts of the chunks, one behind the other, up
/// to the first line that gives no size or the size zero.
pub proof fn law_chunked_body(status: u16, body: Seq<char>, chunks: Seq<Chunk>, end: Seq<char>)
    requires
        sized(chunks),
        size_or_zero(end, 16) == 0,
    ensures
        with_pieces(
            ReaderView::ChunkSize { status, body },
            chunk_pieces(chunks) + seq![Piece::Line(end)],
        ) == Some(
            Ok::<ReaderView, Seq<char>>(
                ReaderView::Done(HttpResponseView { status, body: body + chunk_text(chunks) }),
            ),
        ),
    decreases chunks.len(),
{
    reveal_with_fuel(with_pieces, 4);
    let all = chunk_pieces(chunks) + seq![Piece::Line(end)];
    if chunks.len() == 0 {
        assert(all[0] == Piece::Line(end));
        assert(all.drop_first() =~= seq![]);
        assert(body + chunk_text(chunks) =~= body);
    } else {
        let rest = chunks.drop_first();
        let more = body + lossy_text(chunks[0].bytes);
        assert forall|i: int| 0 <= i < rest.len() implies (#[trigger] rest[i]).bytes.len() > 0
            && size_or_zero(rest[i].size_line, 16) == rest[i].bytes.len() by {
            assert(rest[i] == chunks[i + 1]);
        }
        law_chunked_body(status, more, rest, end);
        let tail = chunk_pieces(rest) + seq![Piece::Line(end)];
        assert(all[0] == Piece::Line(chunks[0].size_line));
        assert(all.drop_first()[0] == Piece::Bytes(chunks[0].bytes));
        assert(all.drop_first().drop_first()[0] == Piece::Skipped);
        assert(all.drop_first().drop_first().drop_first() =~= tail);
        assert(more + chunk_text(rest) =~= body + chunk_text(chunks));
    }
}

/// Behind a head that announces a length and no chunks, the body is what that
/// many bytes stand for; behind one that announces neither, it is empty.
pub proof fn law_fixed_body(status: u16, content_length: usize, blank: Seq<char>, bytes: Seq<u8>)
    requires
        trim(blank).len() == 0,
        bytes.len() == content_length,
    ensures
        with_pieces(
            ReaderView::Head { status, content_length, chunked: false },
            if content_length > 0 {
                seq![Piece::Line(blank), Piece::Bytes(bytes)]
            } else {
                seq![Piece::Line(blank)]
            },
        ) == Some(
            Ok::<ReaderView, Seq<char>>(
                ReaderView::Done(
                    HttpResponseView {
                        status,
                        body: if content_length > 0 {
                            lossy_text(bytes)
                        } else {
                            Seq::empty()
                        },
                    },
                ),
            ),
        ),
{
    reveal_with_fuel(with_pieces, 3);
    if content_length > 0 {
        let all = seq![Piece::Line(blank), Piece::Bytes(bytes)];
        assert(all.drop_first() =~= seq![Piece::Bytes(bytes)]);
        assert(all.drop_first().drop_first() =~= seq![]);
    } else {
        let all = seq![Piece::Line(blank)];
        assert(all.drop_first() =~= seq![]);
    }
}

/// An answer that is read to the end needs nothing more, and only such a one.
pub proof fn law_done_needs_nothing(reader: ReaderView)
    ensures
        reader.need() == Need::Nothing <==> reader is Done,
{
}

/// The decimal numeral of a number is of digits and stands for it.
pub proof fn lemma_decimal(n: nat)
    ensures
        decimal(n).len() > 0,
        forall|i: int| 0 <= i < decimal(n).len() ==> '0' <= #[trigger] decimal(n)[i] <= '9',
        number(decimal(n), 10) == n,
        all_digits(decimal(n), 10),
    decreases n,
{
    reveal_with_fuel(number, 2);
    if n < 10 {
        assert(decimal(n).drop_last() =~= Seq::empty());
    } else {
        lemma_decimal(n / 10);
        assert(decimal(n).drop_last() =~= decimal(n / 10));
        assert forall|i: int| 0 <= i < decimal(n).len() implies '0' <= #[trigger] decimal(n)[i]
            <= '9' by {
            if i < decimal(n / 10).len() {
                assert(decimal(n)[i] == decimal(n / 10)[i]);
            }
        }
    }
}

/// A number is read back from its decimal numeral.
pub proof fn law_decimal_is_read_back(n: nat, max: nat)
    requires
        n <= max,
    ensures
        parse_number(decimal(n), 10, max) == Some(n),
{
    lemma_decimal(n);
    assert(decimal(n)[0] != '+');
}

/// The hexadecimal numeral of a number is of digits and stands for it.
pub proof fn lemma_hexadecimal(n: nat, capitals: bool)
    ensures
        hexadecimal(n, capitals).len() > 0,
        forall|i: int|
            0 <= i < hexadecimal(n, capitals).len() ==> !white_space(
                #[trigger] hexadecimal(n, capitals)[i],
            ),
        hexadecimal(n, capitals)[0] != '+',
        number(hexadecimal(n, capitals), 16) == n,
        all_digits(hexadecimal(n, capitals), 16),
    decreases n,
{
    reveal_with_fuel(number, 2);
    let digits = hexadecimal(n, capitals);
    if n < 16 {
        assert(digits.drop_last() =~= Seq::empty());
    } else {
        let rest = hexadecimal(n / 16, capitals);
        lemma_hexadecimal(n / 16, capitals);
        assert(digits.drop_last() =~= rest);
        assert(digits[0] == rest[0]);
        assert forall|i: int| 0 <= i < digits.len() implies !white_space(#[trigger] digits[i]) by {
            if i < rest.len() {
                assert(digits[i] == rest[i]);
            }
        }
        assert forall|i: int| 0 <= i < digits.len() implies digit_value(#[trigger] digits[i])
            < 16 by {
            if i < rest.len() {
                assert(digits[i] == rest[i]);
            }
        }
    }
}

/// The size of a chunk is read back from its hexadecimal numeral, in capitals or
/// not, with the line break behind it.
pub proof fn law_chunk_size_is_read_back(n: usize, capitals: bool)
    ensures
        parse_number(hexadecimal(n as nat, capitals), 16, usize::MAX as nat) == Some(n as nat),
        size_or_zero(hexadecimal(n as nat, capitals) + "\r\n"@, 16) == n,
{
    reveal_strlit("\r\n");
    let digits = hexadecimal(n as nat, capitals);
    lemma_hexadecimal(n as nat, capitals);
    assert(Seq::<char>::empty() + digits + "\r\n"@ =~= digits + "\r\n"@);
    lemma_trim(Seq::empty(), digits, "\r\n"@);
}

/// A chunk as it is sent in the usual form.
pub open spec fn sent_chunk(bytes: Seq<u8>, capitals: bool) -> Chunk {
    Chunk { size_line: hexadecimal(bytes.len(), capitals) + "\r\n"@, bytes }
}

/// A body that is sent in chunks of the usual form, and ends with one of no bytes,
/// is read as the texts of the chunks, one behind the other.
pub proof fn law_sent_chunks_are_read(status: u16, bodies: Seq<Seq<u8>>, capitals: bool)
    requires
        forall|i: int|
            0 <= i < bodies.len() ==> 0 < (#[trigger] bodies[i]).len() <= usize::MAX,
    ensures
        with_pieces(
            ReaderView::ChunkSize { status, body: Seq::empty() },
            chunk_pieces(bodies.map_values(|b: Seq<u8>| sent_chunk(b, capitals))) + seq![
                Piece::Line("0\r\n"@),
            ],
        ) == Some(
            Ok::<ReaderView, Seq<char>>(
                ReaderView::Done(
                    HttpResponseView {
                        status,
                        body: chunk_text(
                            bodies.map_values(|b: Seq<u8>| sent_chunk(b, capitals)),
                        ),
                    },
                ),
            ),
        ),
{
    reveal_strlit("0\r\n");
    reveal_strlit("\r\n");
    let chunks = bodies.map_values(|b: Seq<u8>| sent_chunk(b, capitals));
    assert forall|i: int| 0 <= i < chunks.len() implies (#[trigger] chunks[i]).bytes.len() > 0
        && size_or_zero(chunks[i].size_line, 16) == chunks[i].bytes.len() by {
        assert(chunks[i] == sent_chunk(bodies[i], capitals));
        law_chunk_size_is_read_back(bodies[i].len() as usize, capitals);
    }
    law_chunk_size_is_read_back(0, false);
    assert("0\r\n"@ =~= hexadecimal(0, false) + "\r\n"@);
    law_chunked_body(status, Seq::empty(), chunks, "0\r\n"@);
    assert(Seq::<char>::empty() + chunk_text(chunks) =~= chunk_text(chunks));
}

/// The status is read from a first line of the usual form: a version, a space,
/// the status in decimal, and whatever follows behind white space.
pub proof fn law_status_is_read(version: Seq<char>, status: u16, rest: Seq<char>)
    requires
        version.len() > 0,
        forall|i: int| 0 <= i < version.len() ==> !white_space(#[trigger] version[i]),
        rest.len() > 0 ==> white_space(rest[0]),
    ensures
        status_code(version + " "@ + decimal(status as nat) + rest) == Ok::<u16, Seq<char>>(status),
{
    reveal_strlit(" ");
    reveal_with_fuel(words, 3);
    let digits = decimal(status as nat);
    lemma_decimal(status as nat);
    law_decimal_is_read_back(status as nat, 65535);
    let line = version + " "@ + digits + rest;
    let n = version.len() as int;
    assert forall|i: int| 0 <= i < n implies !white_space(#[trigger] line[i]) by {
        assert(line[i] == version[i]);
    }
    assert(line[n] == ' ');
    lemma_word_length(line, n);
    let second = digits + rest;
    let m = digits.len() as int;
    assert(line.skip(n).drop_first() =~= second);
    assert(line.skip(n)[0] == ' ');
    assert forall|i: int| 0 <= i < m implies !white_space(#[trigger] second[i]) by {
        assert(second[i] == digits[i]);
    }
    if m < second.len() {
        assert(second[m] == rest[0]);
    }
    lemma_word_length(second, m);
    assert(second.take(m) =~= digits);
    assert(!white_space(line[0]));
    assert(!white_space(second[0]));
    assert(words(second)[0] == digits);
    assert(words(line.skip(n)) == words(second));
    assert(words(line)[1] == digits);
}

proof fn lemma_trim_start_none(s: Seq<char>)
    requires
        s.len() > 0 ==> !white_space(s[0]),
    ensures
        trim_start(s) == s,
{
}

/// What is trimmed: white space before and behind a text that neither starts nor
/// ends with it.
pub proof fn lemma_trim(before: Seq<char>, s: Seq<char>, behind: Seq<char>)
    requires
        forall|i: int| 0 <= i < before.len() ==> white_space(#[trigger] before[i]),
        forall|i: int| 0 <= i < behind.len() ==> white_space(#[trigger] behind[i]),
        s.len() > 0,
        !white_space(s[0]),
        !white_space(s.last()),
    ensures
        trim(before + s + behind) == s,
    decreases before.len() + behind.len(),
{
    let all = before + s + behind;
    if before.len() > 0 {
        assert(white_space(all[0])) by {
            assert(all[0] == before[0]);
        }
        let less = before.drop_first();
        assert forall|i: int| 0 <= i < less.len() implies white_space(#[trigger] less[i]) by {
            assert(less[i] == before[i + 1]);
        }
        lemma_trim(less, s, behind);
        assert(all.drop_first() =~= less + s + behind);
    } else if behind.len() > 0 {
        assert(all[0] == s[0]);
        let less = behind.drop_last();
        assert forall|i: int| 0 <= i < less.len() implies white_space(#[trigger] less[i]) by {
            assert(less[i] == behind[i]);
        }
        lemma_trim(before, s, less);
        let shorter = before + s + less;
        assert(shorter[0] == s[0]);
        lemma_trim_start_none(all);
        lemma_trim_start_none(shorter);
        assert(all.last() == behind.last());
        assert(white_space(behind[behind.len() - 1]));
        assert(all.drop_last() =~= shorter);
    } else {
        assert(all =~= s);
    }
}

/// The length that a line of the usual form announces is read from it, and
/// counts from there on, whatever was announced before.
pub proof fn law_content_length_is_read(
    status: u16,
    content_length: usize,
    chunked: bool,
    length: usize,
)
    ensures
        (ReaderView::Head { status, content_length, chunked }).with_line(
            "Content-Length: "@ + decimal(length as nat) + "\r\n"@,
        ) == Ok::<ReaderView, Seq<char>>(
            ReaderView::Head { status, content_length: length, chunked },
        ),
{
    reveal_strlit("Content-Length: ");
    reveal_strlit("content-length:");
    reveal_strlit("transfer-encoding:");
    reveal_strlit("\r\n");
    let digits = decimal(length as nat);
    lemma_decimal(length as nat);
    law_decimal_is_read_back(length as nat, usize::MAX as nat);
    let text = "Content-Length: "@ + digits;
    let line = text + "\r\n"@;
    assert(text.last() == digits.last());
    assert(Seq::<char>::empty() + text + "\r\n"@ =~= line);
    lemma_trim(Seq::empty(), text, "\r\n"@);
    assert(is_ascii_chars(text));
    let low = lower(text);
    assert(ascii_lower(digits) =~= digits);
    assert(low =~= "content-length:"@ + (seq![' '] + digits));
    assert(low.subrange(0, 15) =~= "content-length:"@);
    assert(low.skip(15) =~= seq![' '] + digits + Seq::<char>::empty());
    lemma_trim(seq![' '], digits, Seq::empty());
    assert(announced_length(low) == Some(length));
    assert(low[0] == 'c');
    assert("transfer-encoding:"@[0] == 't');
    if "transfer-encoding:"@.is_prefix_of(low) {
        assert(low.subrange(0, 18)[0] == "transfer-encoding:"@[0]);
    }
}

/// A head that announces a body in chunks is understood, whatever length was
/// announced before.
pub proof fn law_chunks_are_announced(status: u16, content_length: usize, chunked: bool)
    ensures
        (ReaderView::Head { status, content_length, chunked }).with_line(
            "Transfer-Encoding: chunked\r\n"@,
        ) == Ok::<ReaderView, Seq<char>>(
            ReaderView::Head { status, content_length, chunked: true },
        ),
{
    reveal_strlit("Transfer-Encoding: chunked\r\n");
    reveal_strlit("content-length:");
    reveal_strlit("transfer-encoding:");
    reveal_strlit("chunked");
    let line = "Transfer-Encoding: chunked\r\n"@;
    let text = line.take(26);
    let end = line.skip(26);
    assert(Seq::<char>::empty() + text + end =~= line);
    lemma_trim(Seq::empty(), text, end);
    assert(is_ascii_chars(text));
    let low = lower(text);
    assert(low.subrange(0, 18) =~= "transfer-encoding:"@);
    assert(low.skip(18) =~= seq![' '] + "chunked"@ + Seq::<char>::empty());
    lemma_trim(seq![' '], "chunked"@, Seq::empty());
    assert("content-length:"@[0] == 'c');
    assert(low[0] == 't');
    if "content-length:"@.is_prefix_of(low) {
        assert(low.subrange(0, 15)[0] == "content-length:"@[0]);
    }
}

/// An answer that is sent in the usual form is read as it was meant: its status,
/// and the text whose bytes follow the head.
pub proof fn law_answer_is_read(version: Seq<char>, status: u16, rest: Seq<char>, text: Seq<char>)
    requires
        version.len() > 0,
        forall|i: int| 0 <= i < version.len() ==> !white_space(#[trigger] version[i]),
        rest.len() > 0 ==> white_space(rest[0]),
        0 < encode_utf8(text).len() <= usize::MAX,
    ensures
        with_pieces(
            ReaderView::Status,
            seq![
                Piece::Line(version + " "@ + decimal(status as nat) + rest),
                Piece::Line("Content-Length: "@ + decimal(encode_utf8(text).len()) + "\r\n"@),
                Piece::Line("\r\n"@),
                Piece::Bytes(encode_utf8(text)),
            ],
        ) == Some(
            Ok::<ReaderView, Seq<char>>(
                ReaderView::Done(HttpResponseView { status, body: text }),
            ),
        ),
{
    reveal_with_fuel(with_pieces, 3);
    reveal_with_fuel(trim_start, 3);
    reveal_strlit("\r\n");
    let bytes = encode_utf8(text);
    let length = bytes.len() as usize;
    let first = Piece::Line(version + " "@ + decimal(status as nat) + rest);
    let second = Piece::Line("Content-Length: "@ + decimal(bytes.len()) + "\r\n"@);
    let blank = "\r\n"@;
    let pieces = seq![first, second, Piece::Line(blank), Piece::Bytes(bytes)];
    let last = seq![Piece::Line(blank), Piece::Bytes(bytes)];
    assert(pieces.drop_first().drop_first() =~= last);
    assert(blank.drop_first().drop_first() =~= Seq::empty());
    assert(trim(blank).len() == 0);
    law_status_is_read(version, status, rest);
    law_content_length_is_read(status, 0, false, length);
    law_fixed_body(status, length, blank, bytes);
    encode_utf8_valid_utf8(text);
    encode_utf8_decode_utf8(text);
}

/// A client sends its token so that the interface finds it.
pub proof fn law_token_is_carried(token: Seq<char>)
    ensures
        carried_token("Bearer "@ + token) == token,
{
    let auth = "Bearer "@ + token;
    assert(auth.subrange(0, "Bearer "@.len() as int) =~= "Bearer "@);
    assert(auth.skip("Bearer "@.len() as int) =~= token);
}

/// The request for a service is never refused for its type: the interface reads
/// the type that the service has.
pub proof fn law_requested_type_is_understood(state: ApiView, service: ClientServiceView)
    ensures
        named_type(service_request(service).service_type) == Some(service.service_type),
        !(create_step(state, service_request(service)) is Refuse),
{
    law_type_text_names_type(service.service_type);
}

/// A client takes exactly those answers of the interface for a success by which
/// the interface meets a request.
pub proof fn law_success_is_understood(
    status: StatusCode,
    name: Seq<char>,
    body: Seq<char>,
    info: ServiceInfoView,
    error: Option<Seq<char>>,
)
    ensures
        success(status_number(status)) <==> (status == StatusCode::Okay || status
            == StatusCode::Created || status == StatusCode::NoContent),
        registration(
            name,
            HttpResponseView { status: status_number(status), body },
            Some(info),
            error,
        ) is Ok <==> success(status_number(status)),
{
}

/// The last place of a `c` behind which there is none.
pub proof fn lemma_last_place(a: Seq<char>, b: Seq<char>, c: char)
    requires
        !b.contains(c),
    ensures
        last_place(a + seq![c] + b, c) == a.len(),
    decreases b.len(),
{
    let s = a + seq![c] + b;
    if b.len() > 0 {
        let less = b.drop_last();
        assert(b.contains(b.last()));
        assert forall|x: char| less.contains(x) implies b.contains(x) by {
            let i = choose|i: int| 0 <= i < less.len() && less[i] == x;
            assert(b[i] == x);
        }
        lemma_last_place(a, less, c);
        assert(s.drop_last() =~= a + seq![c] + less);
        assert(s.last() == b.last());
    }
}

/// A derived address has the host of the server's address, and the port that was
/// asked for behind it. An address that is named stays as it is.
pub proof fn law_derived_address_keeps_host(remote_addr: Seq<char>, port: u16, named: Seq<char>)
    ensures
        before_last(derived_api_addr(remote_addr, None, port), ':') == before_last(
            remote_addr,
            ':',
        ),
        (":"@ + decimal(port as nat)).is_suffix_of(derived_api_addr(remote_addr, None, port)),
        derived_api_addr(remote_addr, Some(named), port) == named,
{
    reveal_strlit(":");
    let host = before_last(remote_addr, ':');
    let digits = decimal(port as nat);
    let derived = derived_api_addr(remote_addr, None, port);
    lemma_decimal(port as nat);
    assert(":"@ =~= seq![':']);
    if digits.contains(':') {
        let i = choose|i: int| 0 <= i < digits.len() && digits[i] == ':';
        assert('0' <= digits[i] <= '9');
    }
    lemma_last_place(host, digits, ':');
    assert(derived =~= host + seq![':'] + digits);
    assert(derived.take(host.len() as int) =~= host);
    let tail = ":"@ + digits;
    assert(derived.subrange(derived.len() - tail.len(), derived.len() as int) =~= tail);
}

/// Exactly the statuses of the third hundred say that a request was met.
pub proof fn law_success_statuses(status: u16)
    ensures
        success(status) <==> status / 100 == 2,
{
}

/// A server is up exactly where it answered that it is.
pub proof fn law_up_where_it_says_so(status: u16)
    ensures
        is_up(Some(status)) <==> status / 100 == 2,
        !is_up(None),
{
}

/// The status of an answer is the number that the second word of its first line
/// is. Without a second word, or where that is no such number, there is none, and
/// the reason ends with the line.
pub proof fn law_status_is_the_second_word(line: Seq<char>, status: u16)
    ensures
        status_code(line) == Ok::<u16, Seq<char>>(status) <==> words(line).len() >= 2
            && parse_number(words(line)[1], 10, 65535) == Some(status as nat),
        status_code(line) == Err::<u16, Seq<char>>("Invalid status line: "@ + line) <==> words(
            line,
        ).len() < 2,
        status_code(line) is Err && words(line).len() >= 2 ==> status_code(line) == Err::<
            u16,
            Seq<char>,
        >("Invalid status code: "@ + line),
{
    reveal_strlit("Invalid status line: ");
    reveal_strlit("Invalid status code: ");
    let a = "Invalid status line: "@ + line;
    let b = "Invalid status code: "@ + line;
    assert(a[15] == 'l' && b[15] == 'c');
}

/// A size is the number that a text is without the white space around it, and zero
/// where it is none.
pub proof fn law_sizes(s: Seq<char>, radix: nat, n: usize)
    ensures
        n > 0 ==> (size_or_zero(s, radix) == n <==> parse_number(
            trim(s),
            radix,
            usize::MAX as nat,
        ) == Some(n as nat)),
        parse_number(trim(s), radix, usize::MAX as nat) is None ==> size_or_zero(s, radix) == 0,
        parse_number(trim(s), radix, usize::MAX as nat) == Some(0nat) ==> size_or_zero(s, radix)
            == 0,
{
}

/// Which piece each state needs: lines up to the end of the head and for the sizes
/// of chunks, then exactly the bytes that were announced, and two bytes more behind
/// each chunk.
pub proof fn law_needed_pieces(
    status: u16,
    content_length: usize,
    chunked: bool,
    body: Seq<char>,
    size: usize,
)
    ensures
        ReaderView::Status.need() == Need::Line,
        (ReaderView::Head { status, content_length, chunked }).need() == Need::Line,
        (ReaderView::FixedBody { status, length: size }).need() == Need::Bytes(size),
        (ReaderView::ChunkSize { status, body }).need() == Need::Line,
        (ReaderView::ChunkData { status, body, size }).need() == Need::Bytes(size),
        (ReaderView::ChunkEnd { status, body }).need() == Need::Skip(2),
        (ReaderView::Done(HttpResponseView { status, body })).need() == Need::Nothing,
{
}

/// A first line begins the head with the status of that line, no length and no
/// chunks, and ends the reading with the reason where it has no status.
pub proof fn law_first_line_begins_the_head(line: Seq<char>)
    ensures
        match status_code(line) {
            Ok(status) => ReaderView::Status.with_line(line) matches Ok(ReaderView::Head {
                status: s,
                content_length,
                chunked,
            }) && s == status && content_length == 0 && !chunked,
            Err(e) => ReaderView::Status.with_line(line) matches Err(reason) && reason == e,
        },
{
}

/// Whether a line of the head is neither empty nor about the length of the body or
/// its transfer encoding, in whatever case.
pub open spec fn other_line(line: Seq<char>) -> bool {
    &&& trim(line).len() > 0
    &&& !"content-length:"@.is_prefix_of(lower(trim(line)))
    &&& !"transfer-encoding:"@.is_prefix_of(lower(trim(line)))
}

/// A line of the head that is neither about the length of the body nor about its
/// transfer encoding changes nothing.
pub proof fn law_other_lines_change_nothing(
    status: u16,
    content_length: usize,
    chunked: bool,
    line: Seq<char>,
)
    requires
        other_line(line),
    ensures
        (ReaderView::Head { status, content_length, chunked }).with_line(line) == Ok::<
            ReaderView,
            Seq<char>,
        >(ReaderView::Head { status, content_length, chunked }),
{
}

/// A line about the length of the body sets the length to the number behind the
/// colon, or to zero where that is none, and nothing else. A line about the transfer
/// encoding sets whether there are chunks, and nothing else.
pub proof fn law_telling_lines_set_one_thing(
    status: u16,
    content_length: usize,
    chunked: bool,
    line: Seq<char>,
    value: Seq<char>,
)
    requires
        trim(line).len() > 0,
    ensures
        lower(trim(line)) == "content-length:"@ + value ==> (ReaderView::Head {
            status,
            content_length,
            chunked,
        }).with_line(line) == Ok::<ReaderView, Seq<char>>(
            ReaderView::Head {
                status,
                content_length: match parse_number(trim(value), 10, usize::MAX as nat) {
                    Some(n) => n as usize,
                    None => 0,
                },
                chunked,
            },
        ),
        lower(trim(line)) == "transfer-encoding:"@ + value ==> (ReaderView::Head {
            status,
            content_length,
            chunked,
        }).with_line(line) == Ok::<ReaderView, Seq<char>>(
            ReaderView::Head {
                status,
                content_length,
                chunked: ascii_lower(trim(value)) == "chunked"@,
            },
        ),
{
    reveal_strlit("content-length:");
    reveal_strlit("transfer-encoding:");
    reveal_strlit("chunked");
    let low = lower(trim(line));
    assert(ascii_lower("chunked"@) =~= "chunked"@);
    let length = "content-length:"@;
    let coding = "transfer-encoding:"@;
    assert(length[0] == 'c' && coding[0] == 't');
    if low == length + value {
        assert(low.subrange(0, length.len() as int) =~= length);
        assert(low.skip(length.len() as int) =~= value);
        if coding.is_prefix_of(low) {
            assert(low.subrange(0, coding.len() as int)[0] == coding[0]);
            assert(low[0] == length[0]);
        }
    }
    if low == coding + value {
        assert(low.subrange(0, coding.len() as int) =~= coding);
        assert(low.skip(coding.len() as int) =~= value);
        if length.is_prefix_of(low) {
            assert(low.subrange(0, length.len() as int)[0] == length[0]);
            assert(low[0] == coding[0]);
        }
    }
}

/// The empty line ends the head: chunks come where they were announced, whatever
/// the length, and otherwise as many bytes as were announced, or nothing.
pub proof fn law_empty_line_ends_the_head(
    status: u16,
    content_length: usize,
    chunked: bool,
    blank: Seq<char>,
)
    requires
        trim(blank).len() == 0,
    ensures
        ({
            let next = (ReaderView::Head { status, content_length, chunked }).with_line(blank);
            &&& chunked ==> next == Ok::<ReaderView, Seq<char>>(
                ReaderView::ChunkSize { status, body: Seq::empty() },
            )
            &&& !chunked && content_length > 0 ==> next == Ok::<ReaderView, Seq<char>>(
                ReaderView::FixedBody { status, length: content_length },
            )
            &&& !chunked && content_length == 0 ==> next == Ok::<ReaderView, Seq<char>>(
                ReaderView::Done(HttpResponseView { status, body: Seq::empty() }),
            )
        }),
{
}

/// Lines as pieces of an answer.
pub open spec fn line_pieces(lines: Seq<Seq<char>>) -> Seq<Piece> {
    Seq::new(lines.len(), |i: int| Piece::Line(lines[i]))
}

/// However many other lines stand in the head, what follows is read as without
/// them.
pub proof fn law_other_lines_are_passed_over(
    status: u16,
    content_length: usize,
    chunked: bool,
    lines: Seq<Seq<char>>,
    rest: Seq<Piece>,
)
    requires
        forall|i: int| 0 <= i < lines.len() ==> other_line(#[trigger] lines[i]),
    ensures
        with_pieces(
            ReaderView::Head { status, content_length, chunked },
            line_pieces(lines) + rest,
        ) == with_pieces(ReaderView::Head { status, content_length, chunked }, rest),
    decreases lines.len(),
{
    let all = line_pieces(lines) + rest;
    if lines.len() == 0 {
        assert(all =~= rest);
    } else {
        let less = lines.drop_first();
        assert forall|i: int| 0 <= i < less.len() implies other_line(#[trigger] less[i]) by {
            assert(less[i] == lines[i + 1]);
        }
        assert(other_line(lines[0]));
        law_other_lines_change_nothing(status, content_length, chunked, lines[0]);
        law_other_lines_are_passed_over(status, content_length, chunked, less, rest);
        assert(all[0] == Piece::Line(lines[0]));
        assert(all.drop_first() =~= line_pieces(less) + rest);
    }
}

/// An answer is read with the status and the whole text that were sent, whatever
/// other lines stand in its head before the length and behind it.
pub proof fn law_answer_with_other_lines_is_read(
    version: Seq<char>,
    status: u16,
    rest: Seq<char>,
    before: Seq<Seq<char>>,
    behind: Seq<Seq<char>>,
    text: Seq<char>,
)
    requires
        version.len() > 0,
        forall|i: int| 0 <= i < version.len() ==> !white_space(#[trigger] version[i]),
        rest.len() > 0 ==> white_space(rest[0]),
        forall|i: int| 0 <= i < before.len() ==> other_line(#[trigger] before[i]),
        forall|i: int| 0 <= i < behind.len() ==> other_line(#[trigger] behind[i]),
        encode_utf8(text).len() <= usize::MAX,
    ensures
        with_pieces(
            ReaderView::Status,
            seq![Piece::Line(version + " "@ + decimal(status as nat) + rest)] + (line_pieces(before)
                + (seq![
                Piece::Line("Content-Length: "@ + decimal(encode_utf8(text).len()) + "\r\n"@),
            ] + (line_pieces(behind) + (seq![Piece::Line("\r\n"@)] + (if encode_utf8(text).len() > 0 {
                seq![Piece::Bytes(encode_utf8(text))]
            } else {
                seq![]
            }))))),
        ) == Some(
            Ok::<ReaderView, Seq<char>>(
                ReaderView::Done(HttpResponseView { status, body: text }),
            ),
        ),
{
    reveal_strlit("\r\n");
    reveal_with_fuel(trim_start, 3);
    let bytes = encode_utf8(text);
    let length = bytes.len() as usize;
    let first = Piece::Line(version + " "@ + decimal(status as nat) + rest);
    let second = Piece::Line("Content-Length: "@ + decimal(bytes.len()) + "\r\n"@);
    let blank = "\r\n"@;
    assert(blank.drop_first().drop_first() =~= Seq::empty());
    assert(trim(blank).len() == 0);
    let body = if bytes.len() > 0 {
        seq![Piece::Bytes(bytes)]
    } else {
        seq![]
    };
    let end = seq![Piece::Line(blank)] + body;
    let tail = line_pieces(behind) + end;
    let middle = seq![second] + tail;
    let head = line_pieces(before) + middle;
    let all = seq![first] + head;
    assert(all[0] == first && all.drop_first() =~= head);
    assert(middle[0] == second && middle.drop_first() =~= tail);
    law_status_is_read(version, status, rest);
    law_other_lines_are_passed_over(status, 0, false, before, middle);
    law_content_length_is_read(status, 0, false, length);
    law_other_lines_are_passed_over(status, length, false, behind, end);
    law_fixed_body(status, length, blank, bytes);
    encode_utf8_valid_utf8(text);
    encode_utf8_decode_utf8(text);
    if bytes.len() > 0 {
        assert(end =~= seq![Piece::Line(blank), Piece::Bytes(bytes)]);
    } else {
        assert(end =~= seq![Piece::Line(blank)]);
        assert(bytes =~= encode_utf8(Seq::<char>::empty()));
        encode_utf8_decode_utf8(Seq::empty());
    }
}

/// An answer in chunks is read as the texts of the chunks, one behind the other,
/// whatever other lines stand in its head and whatever length it announces.
pub proof fn law_chunked_answer_is_read(
    status: u16,
    content_length: usize,
    before: Seq<Seq<char>>,
    behind: Seq<Seq<char>>,
    bodies: Seq<Seq<u8>>,
    capitals: bool,
)
    requires
        forall|i: int| 0 <= i < before.len() ==> other_line(#[trigger] before[i]),
        forall|i: int| 0 <= i < behind.len() ==> other_line(#[trigger] behind[i]),
        forall|i: int|
            0 <= i < bodies.len() ==> 0 < (#[trigger] bodies[i]).len() <= usize::MAX,
    ensures
        with_pieces(
            ReaderView::Head { status, content_length, chunked: false },
            line_pieces(before) + (seq![Piece::Line("Transfer-Encoding: chunked\r\n"@)] + (
            line_pieces(behind) + (seq![Piece::Line("\r\n"@)] + (chunk_pieces(
                bodies.map_values(|b: Seq<u8>| sent_chunk(b, capitals)),
            ) + seq![Piece::Line("0\r\n"@)])))),
        ) == Some(
            Ok::<ReaderView, Seq<char>>(
                ReaderView::Done(
                    HttpResponseView {
                        status,
                        body: chunk_text(
                            bodies.map_values(|b: Seq<u8>| sent_chunk(b, capitals)),
                        ),
                    },
                ),
            ),
        ),
{
    reveal_strlit("\r\n");
    reveal_with_fuel(trim_start, 3);
    let blank = "\r\n"@;
    assert(blank.drop_first().drop_first() =~= Seq::empty());
    assert(trim(blank).len() == 0);
    let coding = Piece::Line("Transfer-Encoding: chunked\r\n"@);
    let body = chunk_pieces(bodies.map_values(|b: Seq<u8>| sent_chunk(b, capitals))) + seq![
        Piece::Line("0\r\n"@),
    ];
    let end = seq![Piece::Line(blank)] + body;
    let tail = line_pieces(behind) + end;
    let middle = seq![coding] + tail;
    assert(middle[0] == coding && middle.drop_first() =~= tail);
    assert(end[0] == Piece::Line(blank) && end.drop_first() =~= body);
    law_other_lines_are_passed_over(status, content_length, false, before, middle);
    law_chunks_are_announced(status, content_length, false);
    law_other_lines_are_passed_over(status, content_length, true, behind, end);
    law_sent_chunks_are_read(status, bodies, capitals);
}

/// A chunk is put behind the body that was read before it, and the two bytes that
/// follow it change nothing of it.
pub proof fn law_chunk_is_put_behind(
    status: u16,
    body: Seq<char>,
    size: usize,
    text: Seq<char>,
    line: Seq<char>,
)
    requires
        encode_utf8(text).len() == size,
    ensures
        (ReaderView::ChunkData { status, body, size }).with_bytes(encode_utf8(text))
            == (ReaderView::ChunkEnd { status, body: body + text }),
        (ReaderView::ChunkEnd { status, body }).with_skip() == (ReaderView::ChunkSize {
            status,
            body,
        }),
        (ReaderView::FixedBody { status, length: size }).with_bytes(encode_utf8(text))
            == ReaderView::Done(HttpResponseView { status, body: text }),
        (ReaderView::ChunkSize { status, body }).with_line(line) == Ok::<ReaderView, Seq<char>>(
            if size_or_zero(line, 16) > 0 {
                ReaderView::ChunkData { status, body, size: size_or_zero(line, 16) }
            } else {
                ReaderView::Done(HttpResponseView { status, body })
            },
        ),
{
    encode_utf8_valid_utf8(text);
    encode_utf8_decode_utf8(text);
}

/// The request for a service has its name and the text of its type, its own
/// address and token where it has them, and otherwise any port of any address and
/// no token.
pub proof fn law_service_request_says_what_is_forwarded(service: ClientServiceView)
    ensures
        ({
            let req = service_request(service);
            &&& req.name == service.name
            &&& service.service_type == ServiceType::Tcp ==> req.service_type == "tcp"@
            &&& service.service_type == ServiceType::Udp ==> req.service_type == "udp"@
            &&& service.bind_addr matches Some(addr) ==> req.bind_addr == addr
            &&& service.bind_addr is None ==> req.bind_addr == "0.0.0.0:0"@
            &&& service.token matches Some(token) ==> req.token == token
            &&& service.token is None ==> req.token.len() == 0
        }),
{
    reveal_strlit("");
}

/// A registration gives the service that the answer of a success reads as, and only
/// then. The reason for a failure ends with the reason of the answer where it reads
/// as one, and with all of the answer otherwise, and names the service.
pub proof fn law_registration_gives_the_answer(
    name: Seq<char>,
    response: HttpResponseView,
    info: Option<ServiceInfoView>,
    error: Option<Seq<char>>,
    service: ServiceInfoView,
)
    ensures
        registration(name, response, info, error) == Ok::<ServiceInfoView, Seq<char>>(service)
            <==> response.status / 100 == 2 && info == Some(service),
        response.status / 100 == 2 && info is None ==> registration(name, response, info, error)
            == Err::<ServiceInfoView, Seq<char>>("Failed to parse service info response"@),
        response.status / 100 != 2 ==> (registration(name, response, info, error) matches Err(e) && {
            &&& error matches Some(reason) ==> e == "Failed to register service '"@ + name + "': "@
                + reason
            &&& error is None ==> e == "Failed to register service '"@ + name + "': "@
                + response.body
        }),
{
}

/// A request is, line by line: the method and the path, the host of the interface,
/// the token, the kind of content, how many bytes it has, that the connection ends
/// with the answer, and behind an empty line the content. Each line but those of
/// the content ends with a carriage return and a line feed.
pub proof fn law_request_lines(
    client: ApiClientView,
    method: Seq<char>,
    path: Seq<char>,
    body: Option<Seq<char>>,
)
    ensures
        ({
            let content = match body {
                Some(text) => text,
                None => seq![],
            };
            request_text(client, method, path, body) == join(
                seq![
                    method + " "@ + path + " HTTP/1.1\r"@,
                    "Host: "@ + before_first(client.base_url, ':') + "\r"@,
                    "Authorization: Bearer "@ + client.token + "\r"@,
                    "Content-Type: application/json\r"@,
                    "Content-Length: "@ + decimal(encode_utf8(content).len()) + "\r"@,
                    "Connection: close\r"@,
                    "\r"@,
                    content,
                ],
                '\n',
            )
        }),
{
    let content = match body {
        Some(text) => text,
        None => seq![],
    };
    let n = seq!['\n'];
    let m = method + " "@ + path;
    let a = " HTTP/1.1\r"@;
    let b = "Host: "@;
    let host = before_first(client.base_url, ':');
    let cr = "\r"@;
    let d = "Authorization: Bearer "@;
    let f = "Content-Type: application/json\r"@;
    let g = "Content-Length: "@;
    let digits = decimal(encode_utf8(content).len());
    let k = "Connection: close\r"@;
    lemma_parts_of_a_head();
    let l1 = b + host + cr;
    let l2 = d + client.token + cr;
    let l4 = g + digits + cr;
    let p7 = seq![content];
    let p6 = seq![cr] + p7;
    let p5 = seq![k] + p6;
    let p4 = seq![l4] + p5;
    let p3 = seq![f] + p4;
    let p2 = seq![l2] + p3;
    let p1 = seq![l1] + p2;
    let p0 = seq![m + a] + p1;
    assert(p0 =~= seq![m + a, l1, l2, f, l4, k, cr, content]);
    let x1 = m + a + n;
    lemma_join_behind(Seq::empty(), m + a, p1);
    assert(Seq::<char>::empty() + join(p0, '\n') =~= join(p0, '\n'));
    assert(Seq::<char>::empty() + (m + a) =~= m + a);
    let x2 = x1 + l1 + n;
    lemma_join_behind(x1, l1, p2);
    let x3 = x2 + l2 + n;
    lemma_join_behind(x2, l2, p3);
    let x4 = x3 + f + n;
    lemma_join_behind(x3, f, p4);
    let x5 = x4 + l4 + n;
    lemma_join_behind(x4, l4, p5);
    let x6 = x5 + k + n;
    lemma_join_behind(x5, k, p6);
    lemma_join_behind(x6, cr, p7);
    assert(join(p7, '\n') == content);
    assert(join(p0, '\n') == x6 + cr + n + content);
    lemma_regroup(x1, b, host, cr);
    lemma_regroup(x2, d, client.token, cr);
    lemma_regroup(x4, g, digits, cr);
    let y1 = m + (a + n + b);
    lemma_regroup(m, a, n, b);
    assert(y1 == x1 + b);
    let y2 = y1 + host + (cr + n + d);
    lemma_regroup(y1 + host, cr, n, d);
    assert(y2 == x2 + d);
    let y3 = y2 + client.token + (cr + n + f + n + g);
    lemma_regroup(y2 + client.token, cr, n, f);
    lemma_regroup(y2 + client.token, cr + n + f, n, g);
    assert(y3 == x4 + g);
    let y4 = y3 + digits + (cr + n + k + n + cr + n);
    lemma_regroup(y3 + digits, cr, n, k);
    lemma_regroup(y3 + digits, cr + n + k, n, cr + n);
    assert(cr + n + k + n + cr + n =~= cr + n + k + n + (cr + n));
    lemma_regroup(x6, cr, n, content);
    assert(y4 =~= x6 + cr + n);
    assert(request_text(client, method, path, body) == y4 + content);
}

proof fn lemma_join_behind(x: Seq<char>, line: Seq<char>, rest: Seq<Seq<char>>)
    requires
        rest.len() > 0,
    ensures
        x + join(seq![line] + rest, '\n') == x + line + seq!['\n'] + join(rest, '\n'),
{
    let all = seq![line] + rest;
    assert(all[0] == line);
    assert(all.drop_first() =~= rest);
    lemma_regroup(x, line, seq!['\n'], join(rest, '\n'));
}

proof fn lemma_parts_of_a_head()
    ensures
        " HTTP/1.1\r\nHost: "@ == " HTTP/1.1\r"@ + seq!['\n'] + "Host: "@,
        "\r\nAuthorization: Bearer "@ == "\r"@ + seq!['\n'] + "Authorization: Bearer "@,
        "\r\nContent-Type: application/json\r\nContent-Length: "@ == "\r"@ + seq!['\n']
            + "Content-Type: application/json\r"@ + seq!['\n'] + "Content-Length: "@,
        "\r\nConnection: close\r\n\r\n"@ == "\r"@ + seq!['\n'] + "Connection: close\r"@ + seq![
            '\n',
        ] + "\r"@ + seq!['\n'],
{
    reveal_strlit("\r");
    assert(" HTTP/1.1\r\nHost: "@ =~= " HTTP/1.1\r"@ + seq!['\n'] + "Host: "@) by {
        reveal_strlit(" HTTP/1.1\r");
        reveal_strlit(" HTTP/1.1\r\nHost: ");
        reveal_strlit("Host: ");
    }
    assert("\r\nAuthorization: Bearer "@ =~= "\r"@ + seq!['\n'] + "Authorization: Bearer "@) by {
        reveal_strlit("Authorization: Bearer ");
        reveal_strlit("\r\nAuthorization: Bearer ");
    }
    assert("\r\nContent-Type: application/json\r\nContent-Length: "@ =~= "\r"@ + seq!['\n']
        + "Content-Type: application/json\r"@ + seq!['\n'] + "Content-Length: "@) by {
        reveal_strlit("Content-Type: application/json\r");
        reveal_strlit("Content-Length: ");
        reveal_strlit("\r\nContent-Type: application/json\r\nContent-Length: ");
    }
    assert("\r\nConnection: close\r\n\r\n"@ =~= "\r"@ + seq!['\n'] + "Connection: close\r"@
        + seq!['\n'] + "\r"@ + seq!['\n']) by {
        reveal_strlit("Connection: close\r");
        reveal_strlit("\r\nConnection: close\r\n\r\n");
    }
}

/// A service that is shown, an answer, and a reader stand for their fields.
pub proof fn law_answer_fields(info: ServiceInfo, response: HttpResponse, reader: ResponseReader)
    ensures
        info@.name == info.name@,
        info@.service_type == info.service_type@,
        info@.bind_addr == info.bind_addr@,
        response@.status == response.status,
        response@.body == response.body@,
        reader@ is Status <==> reader is Status,
        reader matches ResponseReader::Head { status, content_length, chunked } ==> reader@ == (
        ReaderView::Head { status, content_length, chunked }),
        reader matches ResponseReader::FixedBody { status, length } ==> reader@ == (
        ReaderView::FixedBody { status, length }),
        reader matches ResponseReader::ChunkSize { status, body } ==> reader@ == (
        ReaderView::ChunkSize { status, body: body@ }),
        reader matches ResponseReader::ChunkData { status, body, size } ==> reader@ == (
        ReaderView::ChunkData { status, body: body@, size }),
        reader matches ResponseReader::ChunkEnd { status, body } ==> reader@ == (
        ReaderView::ChunkEnd { status, body: body@ }),
        reader matches ResponseReader::Done(response) ==> reader@ == ReaderView::Done(response@),
{
}

proof fn lemma_first_line(
    client: ApiClientView,
    method: Seq<char>,
    path: Seq<char>,
    body: Option<Seq<char>>,
)
    requires
        method.len() > 0,
        path.len() > 0,
        forall|i: int| 0 <= i < method.len() ==> !white_space(#[trigger] method[i]),
        forall|i: int| 0 <= i < path.len() ==> !white_space(#[trigger] path[i]),
    ensures
        words(split(request_text(client, method, path, body), '\n')[0]) == seq![
            method,
            path,
            "HTTP/1.1"@,
        ],
{
    reveal_strlit(" ");
    reveal_strlit("HTTP/1.1");
    reveal_strlit(" HTTP/1.1\r");
    let version = "HTTP/1.1"@;
    let line = method + " "@ + path + " HTTP/1.1\r"@;
    let content = match body {
        Some(text) => text,
        None => seq![],
    };
    let rest = seq![
        "Host: "@ + before_first(client.base_url, ':') + "\r"@,
        "Authorization: Bearer "@ + client.token + "\r"@,
        "Content-Type: application/json\r"@,
        "Content-Length: "@ + decimal(encode_utf8(content).len()) + "\r"@,
        "Connection: close\r"@,
        "\r"@,
        content,
    ];
    law_request_lines(client, method, path, body);
    let all = seq![line] + rest;
    assert(all =~= seq![
        line,
        rest[0],
        rest[1],
        rest[2],
        rest[3],
        rest[4],
        rest[5],
        rest[6],
    ]);
    assert(all[0] == line && all.drop_first() =~= rest);
    if line.contains('\n') {
        let i = choose|i: int| 0 <= i < line.len() && line[i] == '\n';
        assert(white_space('\n'));
        if i < method.len() {
            assert(!white_space(method[i]));
        } else if i > method.len() && i < method.len() + 1 + path.len() {
            assert(!white_space(path[i - method.len() - 1]));
        }
    }
    lemma_split_at(line, join(rest, '\n'), '\n');
    let second = path + seq![' '] + (version + seq!['\r'] + Seq::<char>::empty());
    assert(line =~= method + seq![' '] + second);
    law_words(Seq::empty(), ' ', Seq::empty());
    law_words(version, '\r', Seq::empty());
    law_words(path, ' ', version + seq!['\r'] + Seq::<char>::empty());
    law_words(method, ' ', second);
    assert(words(line) =~= seq![method, path, version]);
}

/// The request that registers a service posts it to the services of the interface,
/// and the one that asks whether the server is up gets its health; what is posted
/// stands behind the empty line.
pub proof fn law_what_is_requested(client: ApiClientView, body: Seq<char>)
    ensures
        words(split(registration_request(client, body), '\n')[0]) == seq![
            "POST"@,
            "/api/services"@,
            "HTTP/1.1"@,
        ],
        body.is_suffix_of(registration_request(client, body)),
        words(split(health_request(client), '\n')[0]) == seq![
            "GET"@,
            "/api/health"@,
            "HTTP/1.1"@,
        ],
{
    reveal_strlit("POST");
    reveal_strlit("/api/services");
    reveal_strlit("GET");
    reveal_strlit("/api/health");
    lemma_first_line(client, "POST"@, "/api/services"@, Some(body));
    lemma_first_line(client, "GET"@, "/api/health"@, None);
    let text = registration_request(client, body);
    assert(text.subrange(text.len() - body.len(), text.len() as int) =~= body);
}

}
