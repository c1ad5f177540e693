//! Framing: how one message is cut out of a stream of bytes, and how
//! one is written.
//!
//! A frame is a run of header lines, each ended by a line feed, up to a
//! line that holds only a carriage return and a line feed; then as many
//! bytes of payload as the `Content-Length` header says; then, for a
//! reader that expects one, a trailer of fixed length.

use vstd::prelude::*;
use vstd::utf8::{decode_utf8, encode_utf8, valid_utf8, encode_utf8_valid_utf8, encode_utf8_decode_utf8};

verus! {

/// How reading a frame can fail.
#[derive(Debug, Clone, Copy, PartialEq, Eq, Structural)]
pub enum FrameError {
    /// The headers ended without a `Content-Length`.
    MissingLength,
    /// The value of `Content-Length` is no length.
    BadLength,
    /// The payload is not UTF-8.
    InvalidUtf8,
    /// The stream ended inside a frame.
    UnexpectedEof,
}

/// The trailer that the server's reader takes after each payload.
pub const SERVER_TRAILER: usize = 2;

/// Space, tab, line feed, vertical tab, form feed, carriage return.
pub open spec fn is_blank(b: u8) -> bool {
    b == 32 || (9 <= b && b <= 13)
}

/// The header name with its colon: `Content-Length:`.
pub open spec fn length_tag() -> Seq<u8> {
    seq![67u8, 111u8, 110u8, 116u8, 101u8, 110u8, 116u8, 45u8, 76u8, 101u8, 110u8, 103u8, 116u8, 104u8, 58u8]
}

/// One past the first line feed at or after `from`; -1 where there is none.
pub open spec fn line_end(buf: Seq<u8>, from: int) -> int
    decreases buf.len() - from,
{
    if from < 0 || from >= buf.len() {
        -1
    } else if buf[from] == 10 {
        from + 1
    } else {
        line_end(buf, from + 1)
    }
}

/// The first place in `from..to` that holds no blank; `to` where all are blank.
pub open spec fn skip_blank(s: Seq<u8>, from: int, to: int) -> int
    decreases to - from,
{
    if from >= to || from < 0 || from >= s.len() || !is_blank(s[from]) {
        from
    } else {
        skip_blank(s, from + 1, to)
    }
}

/// One past the last place in `from..to` that holds no blank; `from`
/// where all are blank.
pub open spec fn back_blank(s: Seq<u8>, from: int, to: int) -> int
    decreases to - from,
{
    if to <= from || to > s.len() || to < 1 || !is_blank(s[to - 1]) {
        to
    } else {
        back_blank(s, from, to - 1)
    }
}

/// Whether `at..to` starts with the header name.
pub open spec fn has_tag(s: Seq<u8>, at: int, to: int) -> bool {
    0 <= at && at + 15 <= to && to <= s.len() && s.subrange(at, at + 15) == length_tag()
}

/// Whether `from..to` holds decimal digits only.
pub open spec fn all_digits(s: Seq<u8>, from: int, to: int) -> bool {
    forall|i: int| from <= i < to ==> 48 <= #[trigger] s[i] <= 57
}

/// The number that the decimal digits in `from..to` spell.
pub open spec fn digits_value(s: Seq<u8>, from: int, to: int) -> nat
    decreases to - from,
{
    if to <= from {
        0
    } else {
        (digits_value(s, from, to - 1) * 10 + (s[to - 1] - 48)) as nat
    }
}

/// The length that `from..to` spells: decimal digits, at least one,
/// after at most one `+`, with a value that a length can have.
pub open spec fn length_value(s: Seq<u8>, from: int, to: int) -> Option<nat> {
    let first = if from < to && s[from] == 43 {
        from + 1
    } else {
        from
    };
    if first < to && all_digits(s, first, to) && digits_value(s, first, to) <= usize::MAX {
        Some(digits_value(s, first, to))
    } else {
        None
    }
}

/// What the header line `from..to` says of the length: `None` where it
/// is another header, `Some(None)` where it names a length that is none.
pub open spec fn header_length(s: Seq<u8>, from: int, to: int) -> Option<Option<nat>> {
    let a = skip_blank(s, from, to);
    let b = back_blank(s, a, to);
    if has_tag(s, a, b) {
        Some(length_value(s, skip_blank(s, a + 15, b), b))
    } else {
        None
    }
}

/// Where the headers of a frame lead.
pub enum Headers {
    /// The blank line has not come yet.
    Open,
    /// A `Content-Length` that is no length, in the line that ends at `at`.
    Bad { at: int },
    /// The blank line ends at `body`; `length` is the last length named.
    Closed { body: int, length: Option<nat> },
}

/// Reads header lines from `from` on, with `length` the length named so far.
pub open spec fn headers(buf: Seq<u8>, from: int, length: Option<nat>) -> Headers
    decreases buf.len() - from,
{
    let end = line_end(buf, from);
    if end <= from || end > buf.len() {
        Headers::Open
    } else if end == from + 2 && buf[from] == 13 {
        Headers::Closed { body: end, length }
    } else {
        match header_length(buf, from, end) {
            Some(None) => Headers::Bad { at: end },
            Some(Some(n)) => headers(buf, end, Some(n)),
            None => headers(buf, end, length),
        }
    }
}

/// What the start of a buffer holds.
pub enum Parsed {
    /// Not yet a whole frame.
    Partial,
    /// A frame with this payload, `used` bytes long with its trailer.
    Frame { payload: Seq<char>, used: int },
    /// A frame that cannot be read; `used` bytes belong to it.
    Broken { error: FrameError, used: int },
}

/// Reads one frame from the start of `buf`, for a reader that takes
/// `trailer` bytes after the payload.
pub open spec fn parse_frame(buf: Seq<u8>, trailer: int) -> Parsed {
    match headers(buf, 0, None) {
        Headers::Open => Parsed::Partial,
        Headers::Bad { at } => Parsed::Broken { error: FrameError::BadLength, used: at },
        Headers::Closed { body, length: None } => Parsed::Broken {
            error: FrameError::MissingLength,
            used: body,
        },
        Headers::Closed { body, length: Some(n) } => {
            if buf.len() < body + n + trailer {
                Parsed::Partial
            } else if !valid_utf8(buf.subrange(body, body + n)) {
                Parsed::Broken { error: FrameError::InvalidUtf8, used: body + n + trailer }
            } else {
                Parsed::Frame {
                    payload: decode_utf8(buf.subrange(body, body + n)),
                    used: body + n + trailer,
                }
            }
        },
    }
}

/// What a reader found at the start of its buffer.
#[derive(Debug, PartialEq, Eq)]
pub enum ReadOutcome {
    /// One message; `consumed` bytes of the buffer are done with.
    Frame { payload: String, consumed: usize },
    /// The stream has ended between two frames.
    EndOfStream,
    /// The frame is not all there yet, and the stream has not ended.
    NeedMore,
    /// The message cannot be read; `consumed` bytes of the buffer are
    /// dropped with it.
    Failed { error: FrameError, consumed: usize },
}

/// What a reader owes for the buffer `buf`, the stream having ended or not.
pub open spec fn outcome_matches(r: ReadOutcome, buf: Seq<u8>, trailer: int, eof: bool) -> bool {
    match parse_frame(buf, trailer) {
        Parsed::Partial => if !eof {
            r is NeedMore
        } else if buf.len() == 0 {
            r is EndOfStream
        } else {
            r matches ReadOutcome::Failed { error, consumed } && error == FrameError::UnexpectedEof
                && consumed == buf.len()
        },
        Parsed::Frame { payload, used } => r matches ReadOutcome::Frame { payload: p, consumed }
            && p@ == payload && consumed == used,
        Parsed::Broken { error, used } => r matches ReadOutcome::Failed { error: e, consumed }
            && e == error && consumed == used,
    }
}

/// Turns bytes into text.
///
/// Trusted: `String::from_utf8` of std succeeds exactly on well-formed
/// UTF-8, and the string it gives holds what the bytes encode.
#[verifier::external_body]
fn text_of_bytes(bytes: Vec<u8>) -> (r: Option<String>)
    ensures
        r.is_some() == valid_utf8(bytes@),
        r matches Some(s) ==> s@ == decode_utf8(bytes@),
{
    String::from_utf8(bytes).ok()
}

/// A line ends after its start, inside the buffer, on a line feed.
pub proof fn lemma_line_end_bounds(buf: Seq<u8>, from: int)
    requires
        0 <= from,
    ensures
        line_end(buf, from) == -1 || (from < line_end(buf, from) <= buf.len() && buf[line_end(
            buf,
            from,
        ) - 1] == 10),
    decreases buf.len() - from,
{
    if from < buf.len() && buf[from] != 10 {
        lemma_line_end_bounds(buf, from + 1);
    }
}

/// More digits spell no smaller number.
pub proof fn lemma_digits_grow(s: Seq<u8>, from: int, mid: int, to: int)
    requires
        0 <= from <= mid <= to <= s.len(),
        all_digits(s, from, to),
    ensures
        digits_value(s, from, mid) <= digits_value(s, from, to),
    decreases to - mid,
{
    if mid < to {
        lemma_digits_grow(s, from, mid, to - 1);
        assert(48 <= s[to - 1] <= 57);
    }
}

fn find_line_end(buf: &[u8], from: usize) -> (r: Option<usize>)
    requires
        from <= buf@.len(),
    ensures
        match r {
            Some(e) => e == line_end(buf@, from as int) && from < e <= buf@.len(),
            None => line_end(buf@, from as int) == -1,
        },
{
    let mut i: usize = from;
    while i < buf.len()
        invariant
            from <= i <= buf@.len(),
            line_end(buf@, from as int) == line_end(buf@, i as int),
        decreases buf@.len() - i,
    {
        if buf[i] == 10 {
            return Some(i + 1);
        }
        i = i + 1;
    }
    None
}

fn byte_is_blank(b: u8) -> (r: bool)
    ensures
        r == is_blank(b),
{
    b == 32 || (9 <= b && b <= 13)
}

fn skip_blanks(buf: &[u8], from: usize, to: usize) -> (r: usize)
    requires
        from <= to <= buf@.len(),
    ensures
        r == skip_blank(buf@, from as int, to as int),
        from <= r <= to,
{
    let mut i: usize = from;
    while i < to && byte_is_blank(buf[i])
        invariant
            from <= i <= to <= buf@.len(),
            skip_blank(buf@, from as int, to as int) == skip_blank(buf@, i as int, to as int),
        decreases to - i,
    {
        i = i + 1;
    }
    i
}

fn back_blanks(buf: &[u8], from: usize, to: usize) -> (r: usize)
    requires
        from <= to <= buf@.len(),
    ensures
        r == back_blank(buf@, from as int, to as int),
        from <= r <= to,
{
    let mut i: usize = to;
    while i > from && byte_is_blank(buf[i - 1])
        invariant
            from <= i <= to <= buf@.len(),
            back_blank(buf@, from as int, to as int) == back_blank(buf@, from as int, i as int),
        decreases i,
    {
        i = i - 1;
    }
    i
}

fn tag_at(buf: &[u8], at: usize, to: usize) -> (r: bool)
    requires
        at <= to <= buf@.len(),
    ensures
        r == has_tag(buf@, at as int, to as int),
{
    if to - at < 15 {
        return false;
    }
    let ghost part = buf@.subrange(at as int, at + 15);
    let ok = buf[at] == 67 && buf[at + 1] == 111 && buf[at + 2] == 110 && buf[at + 3] == 116
        && buf[at + 4] == 101 && buf[at + 5] == 110 && buf[at + 6] == 116 && buf[at + 7] == 45
        && buf[at + 8] == 76 && buf[at + 9] == 101 && buf[at + 10] == 110 && buf[at + 11] == 103
        && buf[at + 12] == 116 && buf[at + 13] == 104 && buf[at + 14] == 58;
    proof {
        let tag = length_tag();
        assert(part.len() == 15 && tag.len() == 15);
        assert(part[0] == buf@[at + 0] && part[1] == buf@[at + 1] && part[2] == buf@[at + 2]
            && part[3] == buf@[at + 3] && part[4] == buf@[at + 4] && part[5] == buf@[at + 5]
            && part[6] == buf@[at + 6] && part[7] == buf@[at + 7] && part[8] == buf@[at + 8]
            && part[9] == buf@[at + 9] && part[10] == buf@[at + 10] && part[11] == buf@[at + 11]
            && part[12] == buf@[at + 12] && part[13] == buf@[at + 13] && part[14] == buf@[at
            + 14]);
        if ok {
            assert(part =~= tag);
        } else {
            assert(part != tag);
        }
    }
    ok
}

fn read_length(buf: &[u8], from: usize, to: usize) -> (r: Option<usize>)
    requires
        from <= to <= buf@.len(),
    ensures
        r.is_some() == length_value(buf@, from as int, to as int).is_some(),
        r matches Some(n) ==> Some(n as nat) == length_value(buf@, from as int, to as int),
{
    let first: usize = if from < to && buf[from] == 43 {
        from + 1
    } else {
        from
    };
    if first >= to {
        return None;
    }
    let mut acc: usize = 0;
    let mut i: usize = first;
    while i < to
        invariant
            first <= i <= to <= buf@.len(),
            first == (if from < to && buf@[from as int] == 43 {
                from + 1
            } else {
                from as int
            }),
            all_digits(buf@, first as int, i as int),
            acc == digits_value(buf@, first as int, i as int),
        decreases to - i,
    {
        let b = buf[i];
        if b < 48 || b > 57 {
            proof {
                assert(buf@[i as int] == b);
                assert(!all_digits(buf@, first as int, to as int));
            }
            return None;
        }
        let d: usize = (b - 48) as usize;
        if acc > (usize::MAX - d) / 10 {
            proof {
                if all_digits(buf@, first as int, to as int) {
                    lemma_digits_grow(buf@, first as int, i + 1, to as int);
                }
                assert(digits_value(buf@, first as int, i + 1) == acc * 10 + d);
                assert(acc * 10 + d > usize::MAX) by (nonlinear_arith)
                    requires
                        acc > (usize::MAX - d) / 10,
                        0 <= d <= 9,
                ;
            }
            return None;
        }
        assert(acc * 10 + d <= usize::MAX) by (nonlinear_arith)
            requires
                acc <= (usize::MAX - d) / 10,
                0 <= d <= 9,
        ;
        acc = acc * 10 + d;
        i = i + 1;
    }
    Some(acc)
}

fn read_header(buf: &[u8], from: usize, to: usize) -> (r: Option<Option<usize>>)
    requires
        from <= to <= buf@.len(),
    ensures
        match header_length(buf@, from as int, to as int) {
            None => r.is_none(),
            Some(None) => r == Some(None::<usize>),
            Some(Some(n)) => r matches Some(Some(m)) && m == n,
        },
{
    let a = skip_blanks(buf, from, to);
    let b = back_blanks(buf, a, to);
    if tag_at(buf, a, b) {
        let v = skip_blanks(buf, a + 15, b);
        Some(read_length(buf, v, b))
    } else {
        None
    }
}

fn copy_range(buf: &[u8], from: usize, to: usize) -> (r: Vec<u8>)
    requires
        from <= to <= buf@.len(),
    ensures
        r@ == buf@.subrange(from as int, to as int),
{
    let mut out: Vec<u8> = Vec::new();
    let mut i: usize = from;
    while i < to
        invariant
            from <= i <= to <= buf@.len(),
            out@ == buf@.subrange(from as int, i as int),
        decreases to - i,
    {
        out.push(buf[i]);
        proof {
            assert(buf@.subrange(from as int, i as int).push(buf@[i as int]) =~= buf@.subrange(
                from as int,
                i + 1,
            ));
        }
        i = i + 1;
    }
    out
}

/// A length as a number.
pub open spec fn length_of(length: Option<usize>) -> Option<nat> {
    match length {
        Some(n) => Some(n as nat),
        None => None,
    }
}

fn partial(buf: &[u8], trailer: usize, eof: bool) -> (r: ReadOutcome)
    requires
        parse_frame(buf@, trailer as int) is Partial,
    ensures
        outcome_matches(r, buf@, trailer as int, eof),
{
    if !eof {
        ReadOutcome::NeedMore
    } else if buf.len() == 0 {
        ReadOutcome::EndOfStream
    } else {
        ReadOutcome::Failed { error: FrameError::UnexpectedEof, consumed: buf.len() }
    }
}

/// Reads one frame from the start of `buf`, for a reader that takes
/// `trailer` bytes after each payload. `eof` says that the stream has
/// ended, so that `buf` is all that will ever come.
pub fn decode_frame(buf: &[u8], trailer: usize, eof: bool) -> (r: ReadOutcome)
    ensures
        outcome_matches(r, buf@, trailer as int, eof),
{
    let mut pos: usize = 0;
    let mut length: Option<usize> = None;
    let mut closed = false;
    while !closed
        invariant
            pos <= buf@.len(),
            !closed ==> headers(buf@, 0, None) == headers(buf@, pos as int, length_of(length)),
            closed ==> headers(buf@, 0, None) == (Headers::Closed {
                body: pos as int,
                length: length_of(length),
            }),
        decreases buf@.len() - pos + (if closed { 0int } else { 1int }),
    {
        let end = match find_line_end(buf, pos) {
            Some(e) => e,
            None => {
                return partial(buf, trailer, eof);
            },
        };
        if end - pos == 2 && buf[pos] == 13 {
            closed = true;
        } else {
            match read_header(buf, pos, end) {
                Some(None) => {
                    return ReadOutcome::Failed { error: FrameError::BadLength, consumed: end };
                },
                Some(Some(n)) => {
                    length = Some(n);
                },
                None => {},
            }
        }
        pos = end;
    }
    let n = match length {
        Some(n) => n,
        None => {
            return ReadOutcome::Failed { error: FrameError::MissingLength, consumed: pos };
        },
    };
    if n > buf.len() - pos || trailer > buf.len() - pos - n {
        return partial(buf, trailer, eof);
    }
    match text_of_bytes(copy_range(buf, pos, pos + n)) {
        Some(payload) => ReadOutcome::Frame { payload, consumed: pos + n + trailer },
        None => ReadOutcome::Failed { error: FrameError::InvalidUtf8, consumed: pos + n + trailer },
    }
}

/// The server's reader: after each payload it takes a trailer of two bytes.
pub fn read_frame(buf: &[u8], eof: bool) -> (r: ReadOutcome)
    ensures
        outcome_matches(r, buf@, SERVER_TRAILER as int, eof),
{
    decode_frame(buf, SERVER_TRAILER, eof)
}

/// The client's reader: the next frame follows the payload at once.
pub fn read_response_frame(buf: &[u8], eof: bool) -> (r: ReadOutcome)
    ensures
        outcome_matches(r, buf@, 0, eof),
{
    decode_frame(buf, 0, eof)
}

/// The decimal digits of `n`, without leading zeros.
pub open spec fn decimal(n: nat) -> Seq<u8>
    decreases n,
{
    if n < 10 {
        seq![(48 + n) as u8]
    } else {
        decimal(n / 10).push((48 + n % 10) as u8)
    }
}

/// The header of a frame whose payload has `n` bytes: the header name,
/// a space, the length, and two line ends.
pub open spec fn header_of(n: nat) -> Seq<u8> {
    length_tag().push(32u8) + decimal(n) + seq![13u8, 10u8, 13u8, 10u8]
}

/// The frame that carries `payload`: its header, then the payload, and
/// nothing after it.
pub open spec fn frame_of(payload: Seq<u8>) -> Seq<u8> {
    header_of(payload.len()) + payload
}

fn push_decimal(out: &mut Vec<u8>, n: usize)
    ensures
        final(out)@ == old(out)@ + decimal(n as nat),
    decreases n,
{
    if n < 10 {
        out.push(48 + n as u8);
        proof {
            assert(out@ =~= old(out)@ + decimal(n as nat));
        }
    } else {
        push_decimal(out, n / 10);
        out.push(48 + (n % 10) as u8);
        proof {
            assert(out@ =~= old(out)@ + decimal(n as nat));
        }
    }
}

/// The bytes that send `payload` as one frame. The length in the header
/// counts the bytes of the payload's UTF-8 form.
pub fn encode_frame(payload: &str) -> (frame: Vec<u8>)
    ensures
        frame@ == frame_of(encode_utf8(payload@)),
{
    let bytes = payload.as_bytes();
    let mut out: Vec<u8> = Vec::new();
    out.push(67);
    out.push(111);
    out.push(110);
    out.push(116);
    out.push(101);
    out.push(110);
    out.push(116);
    out.push(45);
    out.push(76);
    out.push(101);
    out.push(110);
    out.push(103);
    out.push(116);
    out.push(104);
    out.push(58);
    out.push(32);
    proof {
        assert(out@ =~= length_tag().push(32u8));
    }
    push_decimal(&mut out, bytes.len());
    out.push(13);
    out.push(10);
    out.push(13);
    out.push(10);
    proof {
        assert(out@ =~= header_of(bytes@.len()));
    }
    let mut i: usize = 0;
    while i < bytes.len()
        invariant
            i <= bytes@.len(),
            out@ == header_of(bytes@.len()) + bytes@.subrange(0, i as int),
        decreases bytes@.len() - i,
    {
        out.push(bytes[i]);
        proof {
            assert(out@ =~= header_of(bytes@.len()) + bytes@.subrange(0, i + 1));
        }
        i = i + 1;
    }
    proof {
        assert(bytes@.subrange(0, i as int) =~= bytes@);
    }
    out
}

/// The digits of a number are digits, at least one, and spell that number.
pub proof fn lemma_decimal(n: nat)
    ensures
        decimal(n).len() >= 1,
        all_digits(decimal(n), 0, decimal(n).len() as int),
        digits_value(decimal(n), 0, decimal(n).len() as int) == n,
    decreases n,
{
    let d = decimal(n);
    if n < 10 {
        assert(d.len() == 1);
        assert(d[0] == 48 + n);
        assert(digits_value(d, 0, 0) == 0);
        assert(digits_value(d, 0, 1) == digits_value(d, 0, 0) * 10 + (d[0] - 48));
    } else {
        lemma_decimal(n / 10);
        let e = decimal(n / 10);
        assert(d == e.push((48 + n % 10) as u8));
        assert forall|i: int| 0 <= i < d.len() implies 48 <= #[trigger] d[i] <= 57 by {
            if i < e.len() {
                assert(d[i] == e[i]);
            }
        }
        lemma_digits_same(e, 0, d, 0, e.len() as int);
        assert(digits_value(d, 0, d.len() as int) == digits_value(d, 0, d.len() - 1) * 10 + (d[d.len()
            - 1] - 48));
    }
}

/// The value of a run of digits depends on the digits alone.
pub proof fn lemma_digits_same(a: Seq<u8>, from_a: int, b: Seq<u8>, from_b: int, len: int)
    requires
        0 <= len,
        0 <= from_a && from_a + len <= a.len(),
        0 <= from_b && from_b + len <= b.len(),
        forall|i: int| from_a <= i < from_a + len ==> #[trigger] a[i] == b[i - from_a + from_b],
    ensures
        digits_value(a, from_a, from_a + len) == digits_value(b, from_b, from_b + len),
    decreases len,
{
    if len > 0 {
        lemma_digits_same(a, from_a, b, from_b, len - 1);
        assert(a[from_a + len - 1] == b[from_a + len - 1 - from_a + from_b]);
    }
}

/// A line ends at the first line feed.
pub proof fn lemma_line_end_found(buf: Seq<u8>, from: int, at: int)
    requires
        0 <= from <= at < buf.len(),
        forall|i: int| from <= i < at ==> #[trigger] buf[i] != 10,
        buf[at] == 10,
    ensures
        line_end(buf, from) == at + 1,
    decreases at - from,
{
    if from < at {
        lemma_line_end_found(buf, from + 1, at);
    }
}

/// Reading what was written gives back what was sent: a frame written
/// for `text`, followed by a trailer that the reader expects and by
/// anything else, is read as one frame with the payload `text`, and
/// the frame and its trailer are what the reader uses up. The length
/// in the header is the number of bytes of the text's UTF-8 form.
pub proof fn lemma_frame_round_trip(text: Seq<char>, rest: Seq<u8>, trailer: int)
    requires
        encode_utf8(text).len() <= usize::MAX,
        0 <= trailer <= rest.len(),
    ensures
        parse_frame(frame_of(encode_utf8(text)) + rest, trailer) == (Parsed::Frame {
            payload: text,
            used: frame_of(encode_utf8(text)).len() + trailer,
        }),
        frame_of(encode_utf8(text)) == length_tag().push(32u8) + decimal(encode_utf8(text).len())
            + seq![13u8, 10u8, 13u8, 10u8] + encode_utf8(text),
{
    let p = encode_utf8(text);
    let n = p.len();
    let d = decimal(n);
    let k = d.len() as int;
    let buf = frame_of(p) + rest;
    lemma_decimal(n);
    encode_utf8_valid_utf8(text);
    encode_utf8_decode_utf8(text);
    let tag = length_tag();
    assert(tag.len() == 15);
    assert(buf.len() == 20 + k + n + rest.len());
    assert forall|i: int| 0 <= i < 15 implies #[trigger] buf[i] == tag[i] by {}
    assert(buf[15] == 32);
    assert forall|i: int| 16 <= i < 16 + k implies #[trigger] buf[i] == d[i - 16] by {}
    assert(buf[16 + k] == 13 && buf[17 + k] == 10 && buf[18 + k] == 13 && buf[19 + k] == 10);
    assert forall|i: int| 20 + k <= i < 20 + k + n implies #[trigger] buf[i] == p[i - 20 - k] by {}
    assert forall|i: int| 0 <= i < 17 + k implies #[trigger] buf[i] != 10 by {
        if i < 15 {
            assert(buf[i] == tag[i]);
        } else if i >= 16 && i < 16 + k {
            assert(buf[i] == d[i - 16]);
            assert(48 <= d[i - 16] <= 57);
        }
    }
    lemma_line_end_found(buf, 0, 17 + k);
    let end = 18 + k;
    assert(line_end(buf, 0) == end);
    // The first line names the length.
    assert(buf[0] == 67) by {
        assert(buf[0] == tag[0]);
    }
    assert(skip_blank(buf, 0, end) == 0);
    assert(buf[15 + k] == d[k - 1]);
    assert(48 <= d[k - 1] <= 57);
    assert(back_blank(buf, 0, 16 + k) == 16 + k);
    assert(back_blank(buf, 0, 17 + k) == 16 + k);
    assert(back_blank(buf, 0, end) == 16 + k);
    assert(buf.subrange(0, 15) =~= tag);
    assert(has_tag(buf, 0, 16 + k));
    assert(buf[16] == d[0]);
    assert(48 <= d[0] <= 57);
    assert(skip_blank(buf, 16, 16 + k) == 16);
    assert(skip_blank(buf, 15, 16 + k) == 16);
    assert forall|i: int| 16 <= i < 16 + k implies 48 <= #[trigger] buf[i] <= 57 by {
        assert(buf[i] == d[i - 16]);
        assert(48 <= d[i - 16] <= 57);
    }
    lemma_digits_same(buf, 16, d, 0, k);
    assert(length_value(buf, 16, 16 + k) == Some(n));
    assert(header_length(buf, 0, end) == Some(Some(n)));
    // The second line closes the headers.
    assert(line_end(buf, 19 + k) == 20 + k);
    assert(line_end(buf, end) == 20 + k);
    assert(headers(buf, end, Some(n)) == (Headers::Closed { body: 20 + k, length: Some(n) }));
    assert(headers(buf, 0, None) == headers(buf, end, Some(n)));
    assert(buf.subrange(20 + k, 20 + k + n) =~= p);
    assert(frame_of(p).len() == 20 + k + n);
    assert(frame_of(p) =~= length_tag().push(32u8) + decimal(n) + seq![13u8, 10u8, 13u8, 10u8] + p);
}

/// What a reader returns for a frame that was written for `text` and is
/// followed by the trailer it expects.
pub proof fn lemma_read_after_write(text: Seq<char>, rest: Seq<u8>, trailer: int, eof: bool, r: ReadOutcome)
    requires
        encode_utf8(text).len() <= usize::MAX,
        0 <= trailer <= rest.len(),
        outcome_matches(r, frame_of(encode_utf8(text)) + rest, trailer, eof),
    ensures
        r matches ReadOutcome::Frame { payload, consumed } && payload@ == text && consumed
            == frame_of(encode_utf8(text)).len() + trailer,
{
    lemma_frame_round_trip(text, rest, trailer);
}

/// Why a transport could not read or write.
#[derive(Debug, Clone, Copy, PartialEq, Eq, Structural)]
pub enum TransportError {
    /// A frame could not be read.
    Frame(FrameError),
    /// The stream itself failed.
    Io,
}

/// A channel of messages: read the next one, write one.
pub trait Transport {
    /// The next message, or `None` once the stream has ended between
    /// two messages.
    fn read(&mut self) -> Result<Option<String>, TransportError>;

    /// Sends one message.
    fn write(&mut self, payload: &str) -> Result<(), TransportError>;
}

/// A transport over bytes in memory: it reads frames from `input`,
/// from `position` on, as the server does, and appends the frames it
/// writes to `output`.
#[derive(Debug)]
pub struct MemoryTransport {
    pub input: Vec<u8>,
    pub position: usize,
    pub output: Vec<u8>,
}

/// The bytes that a transport has not read yet.
pub open spec fn unread(input: Seq<u8>, position: int) -> Seq<u8> {
    if 0 <= position <= input.len() {
        input.subrange(position, input.len() as int)
    } else {
        Seq::<u8>::empty()
    }
}

impl MemoryTransport {
    /// A transport that will read `input` and has written nothing.
    pub fn new(input: Vec<u8>) -> (r: MemoryTransport)
        ensures
            r.input == input,
            r.position == 0,
            r.output@.len() == 0,
    {
        MemoryTransport { input, position: 0, output: Vec::new() }
    }

    /// Reads the next frame of the input, which is all there is.
    pub fn read_next(&mut self) -> (r: ReadOutcome)
        ensures
            outcome_matches(
                r,
                unread(old(self).input@, old(self).position as int),
                SERVER_TRAILER as int,
                true,
            ),
            final(self).input == old(self).input,
            final(self).output == old(self).output,
            final(self).position == (match r {
                ReadOutcome::Frame { consumed, .. } => old(self).position + consumed,
                ReadOutcome::Failed { consumed, .. } => old(self).position + consumed,
                _ => old(self).position as int,
            }),
    {
        if self.position > self.input.len() {
            let empty: Vec<u8> = Vec::new();
            return decode_frame(empty.as_slice(), SERVER_TRAILER, true);
        }
        let rest = copy_range(self.input.as_slice(), self.position, self.input.len());
        let r = decode_frame(rest.as_slice(), SERVER_TRAILER, true);
        proof {
            lemma_used_bounds(rest@, SERVER_TRAILER as int);
        }
        match &r {
            ReadOutcome::Frame { consumed, .. } => {
                self.position = self.position + *consumed;
            },
            ReadOutcome::Failed { consumed, .. } => {
                self.position = self.position + *consumed;
            },
            _ => {},
        }
        r
    }

    /// Appends the frame for `payload` to the output.
    pub fn write_frame(&mut self, payload: &str)
        ensures
            final(self).output@ == old(self).output@ + frame_of(encode_utf8(payload@)),
            final(self).input == old(self).input,
            final(self).position == old(self).position,
    {
        let mut frame = encode_frame(payload);
        self.output.append(&mut frame);
    }
}

impl Transport for MemoryTransport {
    fn read(&mut self) -> (r: Result<Option<String>, TransportError>)
        ensures
            final(self).input == old(self).input,
            final(self).output == old(self).output,
            match parse_frame(
                unread(old(self).input@, old(self).position as int),
                SERVER_TRAILER as int,
            ) {
                Parsed::Frame { payload, used } => r matches Ok(Some(p)) && p@ == payload
                    && final(self).position == old(self).position + used,
                Parsed::Broken { error, used } => r == Err::<Option<String>, TransportError>(
                    TransportError::Frame(error),
                ) && final(self).position == old(self).position + used,
                Parsed::Partial => if unread(old(self).input@, old(self).position as int).len()
                    == 0 {
                    r == Ok::<Option<String>, TransportError>(None) && final(self).position == old(
                        self,
                    ).position
                } else {
                    r == Err::<Option<String>, TransportError>(
                        TransportError::Frame(FrameError::UnexpectedEof),
                    ) && final(self).position == old(self).input@.len()
                },
            },
    {
        match self.read_next() {
            ReadOutcome::Frame { payload, .. } => Ok(Some(payload)),
            ReadOutcome::EndOfStream => Ok(None),
            ReadOutcome::NeedMore => Err(TransportError::Frame(FrameError::UnexpectedEof)),
            ReadOutcome::Failed { error, .. } => Err(TransportError::Frame(error)),
        }
    }

    fn write(&mut self, payload: &str) -> (r: Result<(), TransportError>)
        ensures
            r is Ok,
            final(self).output@ == old(self).output@ + frame_of(encode_utf8(payload@)),
            final(self).input == old(self).input,
            final(self).position == old(self).position,
    {
        self.write_frame(payload);
        Ok(())
    }
}

/// Headers end after their start and inside the buffer.
pub proof fn lemma_headers_bounds(buf: Seq<u8>, from: int, length: Option<nat>)
    requires
        0 <= from <= buf.len(),
    ensures
        match headers(buf, from, length) {
            Headers::Open => true,
            Headers::Bad { at } => from < at <= buf.len(),
            Headers::Closed { body, .. } => from < body <= buf.len(),
        },
    decreases buf.len() - from,
{
    let end = line_end(buf, from);
    lemma_line_end_bounds(buf, from);
    if end <= from || end > buf.len() {
    } else if end == from + 2 && buf[from] == 13 {
    } else {
        match header_length(buf, from, end) {
            Some(None) => {},
            Some(Some(n)) => {
                lemma_headers_bounds(buf, end, Some(n));
            },
            None => {
                lemma_headers_bounds(buf, end, length);
            },
        }
    }
}

/// A frame uses up at least one byte of the buffer and no more than it holds.
pub proof fn lemma_used_bounds(buf: Seq<u8>, trailer: int)
    requires
        0 <= trailer,
    ensures
        match parse_frame(buf, trailer) {
            Parsed::Partial => true,
            Parsed::Frame { used, .. } => 0 < used <= buf.len(),
            Parsed::Broken { used, .. } => 0 < used <= buf.len(),
        },
{
    lemma_headers_bounds(buf, 0, None);
}

} // verus!
