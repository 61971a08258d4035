//! Message frames of the debug adapter protocol: header lines, an empty line,
//! and as many bytes of content as the header `Content-Length` tells.

use crate::json::{json_of, parse_json, Json, JsonView};
use crate::number::{decimal, parse_usize, read_unsigned, unsigned_text};
use crate::text::{ascii_lower, ascii_lowered, chars_of};
use crate::whitespace::{trim, trimmed};
use bytes::BytesMut;
use vstd::prelude::*;
use vstd::utf8::{decode_utf8, encode_utf8, valid_utf8};

verus! {

/// A growable buffer of bytes that can be cut in two.
#[verifier::external_type_specification]
#[verifier::external_body]
pub struct ExBytesMut(BytesMut);

/// The bytes that a buffer holds.
pub uninterp spec fn buffered(buffer: BytesMut) -> Seq<u8>;

/// `BytesMut::len` is the number of bytes that the buffer holds.
pub assume_specification[ BytesMut::len ](buffer: &BytesMut) -> (n: usize)
    ensures
        n == buffered(*buffer).len(),
;

/// `BytesMut::split_to` cuts the buffer at a position within it: the bytes
/// before it are handed out, those from it on stay. Beyond the end it panics.
pub assume_specification[ BytesMut::split_to ](buffer: &mut BytesMut, at: usize) -> (front: BytesMut)
    requires
        at <= buffered(*old(buffer)).len(),
    ensures
        buffered(front) == buffered(*old(buffer)).take(at as int),
        buffered(*final(buffer)) == buffered(*old(buffer)).skip(at as int),
;

/// `BytesMut::extend_from_slice` appends bytes at the end of the buffer. It panics
/// where the buffer would grow beyond what can be allocated.
pub assume_specification[ BytesMut::extend_from_slice ](buffer: &mut BytesMut, extend: &[u8])
    requires
        buffered(*old(buffer)).len() + extend@.len() <= isize::MAX,
    ensures
        buffered(*final(buffer)) == buffered(*old(buffer)) + extend@,
;

/// `<BytesMut as AsRef<[u8]>>::as_ref` is the bytes that the buffer holds.
#[verifier::external_body]
fn bytes_of(buffer: &BytesMut) -> (r: &[u8])
    ensures
        r@ == buffered(*buffer),
{
    buffer.as_ref()
}

/// `std::str::from_utf8` succeeds exactly on valid UTF-8, and then gives the
/// text that the bytes encode.
#[verifier::external_body]
fn text_of(bytes: &[u8]) -> (r: Option<String>)
    ensures
        match r {
            Some(text) => valid_utf8(bytes@) && text@ == decode_utf8(bytes@),
            None => !valid_utf8(bytes@),
        },
{
    match std::str::from_utf8(bytes) {
        Ok(text) => Some(text.to_string()),
        Err(_) => None,
    }
}

/// Where the decoder stands in a frame.
#[derive(Clone, Copy, Debug, PartialEq, Eq, Structural)]
pub enum State {
    ReadingHeaders,
    ReadingBody,
}

/// Reads and writes frames.
#[derive(Debug)]
pub struct DAPCodec {
    pub state: State,
    pub content_len: usize,
}

/// Whether a line ends at `at`: a carriage return and a line feed stand there.
pub open spec fn line_end_at(b: Seq<u8>, at: int) -> bool {
    0 <= at && at + 2 <= b.len() && b[at] == 13 && b[at + 1] == 10
}

/// Where the first line from `from` on ends.
pub open spec fn line_end(b: Seq<u8>, from: int) -> Option<int>
    decreases b.len() - from,
{
    if from < 0 || from + 2 > b.len() {
        None
    } else if line_end_at(b, from) {
        Some(from)
    } else {
        line_end(b, from + 1)
    }
}

/// The content length after a header line: what the line says, if it is a
/// `Content-Length` with a number, and else what was known before.
pub open spec fn length_after(line: Seq<u8>, known: nat) -> nat {
    let text = decode_utf8(line);
    if valid_utf8(line) && text.len() > 15 && ascii_lowered(text.take(15)) == "content-length:"@ {
        match read_unsigned(trimmed(text.skip(15)), usize::MAX as nat) {
            Ok(n) => n,
            Err(_) => known,
        }
    } else {
        known
    }
}

/// What becomes of the decoder and of its input: the content of the first
/// frame, if it is complete, the state and the content length, and the bytes
/// that are left.
#[verifier::ext_equal]
pub struct Decoded {
    pub frame: Option<Seq<u8>>,
    pub state: State,
    pub content_len: nat,
    pub rest: Seq<u8>,
}

/// Reading `input`. Header lines are taken off as they are complete, the empty
/// line leads to the content, and the content is handed out once it is there in
/// full.
pub open spec fn decoded(state: State, content_len: nat, input: Seq<u8>) -> Decoded
    decreases input.len(),
{
    match state {
        State::ReadingHeaders => match line_end(input, 0) {
            None => Decoded { frame: None, state, content_len, rest: input },
            Some(at) => if 0 <= at && at + 2 <= input.len() {
                let line = input.take(at + 2);
                let rest = input.skip(at + 2);
                if at == 0 {
                    decoded(State::ReadingBody, content_len, rest)
                } else {
                    decoded(State::ReadingHeaders, length_after(line, content_len), rest)
                }
            } else {
                Decoded { frame: None, state, content_len, rest: input }
            },
        },
        State::ReadingBody => if input.len() < content_len {
            Decoded { frame: None, state, content_len, rest: input }
        } else {
            Decoded {
                frame: Some(input.take(content_len as int)),
                state: State::ReadingHeaders,
                content_len: 0,
                rest: input.skip(content_len as int),
            }
        },
    }
}

proof fn line_end_is_first(b: Seq<u8>, from: int)
    requires
        0 <= from,
    ensures
        match line_end(b, from) {
            Some(at) => from <= at && line_end_at(b, at) && (forall|j: int|
                from <= j < at ==> !#[trigger] line_end_at(b, j)),
            None => forall|j: int| from <= j ==> !#[trigger] line_end_at(b, j),
        },
    decreases b.len() - from,
{
    if from + 2 <= b.len() && !line_end_at(b, from) {
        line_end_is_first(b, from + 1);
    }
}

/// The first line that ends in `bytes`.
fn find_line_end(bytes: &[u8]) -> (r: Option<usize>)
    ensures
        match r {
            Some(at) => line_end(bytes@, 0) == Some(at as int) && line_end_at(bytes@, at as int)
                && at + 2 <= usize::MAX,
            None => line_end(bytes@, 0) is None,
        },
{
    let mut i: usize = 0;
    let n: usize = bytes.len();
    while i < n && n - i >= 2
        invariant
            i <= n,
            n == bytes@.len(),
            line_end(bytes@, 0) == line_end(bytes@, i as int),
        decreases n - i,
    {
        if bytes[i] == 13 && bytes[i + 1] == 10 {
            return Some(i);
        }
        i = i + 1;
    }
    None
}

/// Whether the first characters are those of `wanted`, which has no capital
/// letters, up to the case of ASCII letters.
fn starts_with_any_case(chars: &Vec<char>, wanted: &Vec<char>) -> (r: bool)
    requires
        wanted@.len() <= chars@.len(),
    ensures
        r == (ascii_lowered(chars@.take(wanted@.len() as int)) == wanted@),
{
    let mut i: usize = 0;
    while i < wanted.len()
        invariant
            i <= wanted@.len(),
            wanted@.len() <= chars@.len(),
            forall|j: int| 0 <= j < i ==> ascii_lower(#[trigger] chars@[j]) == wanted@[j],
        decreases wanted@.len() - i,
    {
        let c = chars[i];
        let low: char = if 'A' <= c && c <= 'Z' {
            (c as u8 + 32) as char
        } else {
            c
        };
        assert(low == ascii_lower(c));
        if low != wanted[i] {
            assert(ascii_lowered(chars@.take(wanted@.len() as int))[i as int] != wanted@[i as int]);
            return false;
        }
        i = i + 1;
    }
    assert(ascii_lowered(chars@.take(wanted@.len() as int)) =~= wanted@);
    true
}

impl DAPCodec {
    /// A codec at the start of a frame.
    pub fn new() -> (r: DAPCodec)
        ensures
            r.state == State::ReadingHeaders,
            r.content_len == 0,
    {
        DAPCodec { state: State::ReadingHeaders, content_len: 0 }
    }

    /// Takes a header line into account.
    fn read_header(&mut self, line: &[u8])
        ensures
            final(self).state == old(self).state,
            final(self).content_len == length_after(line@, old(self).content_len as nat),
    {
        proof {
            reveal_strlit("content-length:");
        }
        if let Some(text) = text_of(line) {
            let chars = chars_of(text.as_str());
            let name = chars_of("content-length:");
            if chars.len() > 15 && starts_with_any_case(&chars, &name) {
                let value = crate::text::without_first(text.as_str(), 15);
                if let Ok(n) = parse_usize(trim(value.as_str()).as_str()) {
                    self.content_len = n;
                }
            }
        }
    }

    /// Reads from the buffer: the content of the next frame, once it is there.
    pub fn decode_frame(&mut self, buffer: &mut BytesMut) -> (r: Option<BytesMut>)
        ensures
            ({
                let d = decoded(
                    old(self).state,
                    old(self).content_len as nat,
                    buffered(*old(buffer)),
                );
                &&& final(self).state == d.state
                &&& final(self).content_len == d.content_len
                &&& buffered(*final(buffer)) == d.rest
                &&& match r {
                    Some(frame) => d.frame == Some(buffered(frame)),
                    None => d.frame is None,
                }
            }),
    {
        let ghost whole = decoded(self.state, self.content_len as nat, buffered(*buffer));
        loop
            invariant
                whole == decoded(
                    old(self).state,
                    old(self).content_len as nat,
                    buffered(*old(buffer)),
                ),
                whole == decoded(self.state, self.content_len as nat, buffered(*buffer)),
            decreases buffered(*buffer).len(),
        {
            match self.state {
                State::ReadingHeaders => {
                    match find_line_end(bytes_of(buffer)) {
                        None => {
                            return None;
                        },
                        Some(at) => {
                            let line = buffer.split_to(at + 2);
                            if at == 0 {
                                self.state = State::ReadingBody;
                            } else {
                                self.read_header(bytes_of(&line));
                            }
                        },
                    }
                },
                State::ReadingBody => {
                    if buffer.len() < self.content_len {
                        return None;
                    }
                    let frame = buffer.split_to(self.content_len);
                    self.state = State::ReadingHeaders;
                    self.content_len = 0;
                    return Some(frame);
                },
            }
        }
    }

    /// Writes `content` as a frame at the end of the buffer.
    pub fn encode_frame(&self, content: &[u8], buffer: &mut BytesMut)
        requires
            buffered(*old(buffer)).len() + framed(content@).len() <= isize::MAX,
        ensures
            buffered(*final(buffer)) == buffered(*old(buffer)) + framed(content@),
    {
        let ghost before = buffered(*buffer);
        let number = unsigned_text(content.len() as u64);
        let header = "Content-Length: ".to_string().concat(number.as_str()).concat("\r\n\r\n");
        buffer.extend_from_slice(header.as_str().as_bytes());
        buffer.extend_from_slice(content);
        assert(buffered(*buffer) =~= before + framed(content@));
    }
}

/// The header of a frame with `n` bytes of content, and the empty line.
pub open spec fn frame_header(n: nat) -> Seq<char> {
    "Content-Length: "@ + decimal(n) + "\r\n\r\n"@
}

/// A frame with that content.
pub open spec fn framed(content: Seq<u8>) -> Seq<u8> {
    encode_utf8(frame_header(content.len())) + content
}

proof fn header_is_ascii(n: nat)
    ensures
        vstd::utf8::is_ascii_chars(frame_header(n)),
        frame_header(n).len() >= 21,
        forall|j: int| 0 <= j < frame_header(n).len() - 4 ==> frame_header(n)[j] as u32 != 13,
        frame_header(n).subrange(frame_header(n).len() - 4, frame_header(n).len() as int)
            == "\r\n\r\n"@,
        ascii_lowered(frame_header(n).take(15)) == "content-length:"@,
        frame_header(n).subrange(15, frame_header(n).len() - 2) == seq![' '] + decimal(n) + seq![
            '\r',
            '\n',
        ],
{
    reveal_strlit("Content-Length: ");
    reveal_strlit("content-length:");
    reveal_strlit("\r\n\r\n");
    crate::number::decimal_is_digits(n);
    let h = frame_header(n);
    let a = "Content-Length: "@;
    let d = decimal(n);
    let z = "\r\n\r\n"@;
    assert(a.len() == 16 && z.len() == 4);
    assert forall|i: int| 0 <= i < h.len() implies (#[trigger] h[i] as u32) < 128 && (i < h.len()
        - 4 ==> h[i] as u32 != 13) by {
        if i < 16 {
            assert(h[i] == a[i]);
        } else if i < 16 + d.len() {
            assert(h[i] == d[i - 16]);
            assert(crate::number::is_digit(d[i - 16]));
        } else {
            assert(h[i] == z[i - 16 - d.len()]);
        }
    }
    assert(ascii_lowered(h.take(15)) =~= "content-length:"@);
    assert(h.subrange(h.len() - 4, h.len() as int) =~= z);
    assert(h.subrange(15, h.len() - 2) =~= seq![' '] + d + seq!['\r', '\n']);
}

proof fn trimmed_number(n: nat)
    ensures
        trimmed(seq![' '] + decimal(n) + seq!['\r', '\n']) == decimal(n),
{
    crate::number::decimal_is_digits(n);
    let d = decimal(n);
    let s = seq![' '] + d + seq!['\r', '\n'];
    let t = d + seq!['\r', '\n'];
    assert(s.skip(1) =~= t);
    assert(crate::number::is_digit(d[0]));
    assert(t[0] == d[0]);
    assert(crate::whitespace::trimmed_start(t) == t);
    assert(crate::whitespace::trimmed_start(s) == t);
    let u = d + seq!['\r'];
    assert(t.drop_last() =~= u);
    assert(u.drop_last() =~= d);
    assert(crate::number::is_digit(d[d.len() - 1]));
    assert(crate::whitespace::trimmed_end(d) == d);
    assert(crate::whitespace::trimmed_end(u) == d);
    assert(crate::whitespace::trimmed_end(t) == d);
}

/// What was written as a frame is read back: its content comes out, and what
/// follows it in the input is left for the next frame.
pub proof fn decode_gives_back_what_encode_wrote(known: nat, content: Seq<u8>, rest: Seq<u8>)
    requires
        content.len() <= usize::MAX,
    ensures
        decoded(State::ReadingHeaders, known, framed(content) + rest) == (Decoded {
            frame: Some(content),
            state: State::ReadingHeaders,
            content_len: 0,
            rest,
        }),
{
    let n = content.len();
    let h = frame_header(n);
    let b = encode_utf8(h);
    header_is_ascii(n);
    vstd::utf8::is_ascii_chars_encode_utf8(h);
    reveal_strlit("\r\n\r\n");
    let input = framed(content) + rest;
    let p = h.len() - 4;
    assert forall|j: int| 0 <= j < h.len() implies #[trigger] input[j] == h[j] as u8 by {
        assert(input[j] == b[j]);
    }
    let z = h.subrange(p, h.len() as int);
    assert(h[p] == z[0] && h[p + 1] == z[1] && h[p + 2] == z[2] && h[p + 3] == z[3]);
    assert(line_end_at(input, p));
    assert forall|j: int| 0 <= j < p implies !#[trigger] line_end_at(input, j) by {
        assert(input[j] == h[j] as u8);
    }
    line_end_is_first(input, 0);
    assert(line_end(input, 0) == Some(p));
    let line = input.take(p + 2);
    let t = h.take(p + 2);
    vstd::utf8::is_ascii_chars_encode_utf8(t);
    assert(line =~= encode_utf8(t)) by {
        assert forall|j: int| 0 <= j < p + 2 implies line[j] == encode_utf8(t)[j] by {
            assert(t[j] == h[j]);
            assert(input[j] == h[j] as u8);
        }
    }
    vstd::utf8::encode_utf8_valid_utf8(t);
    vstd::utf8::encode_utf8_decode_utf8(t);
    assert(t.take(15) =~= h.take(15));
    assert(t.skip(15) =~= h.subrange(15, h.len() - 2));
    trimmed_number(n);
    crate::number::decimal_read_back(n, usize::MAX as nat);
    assert(length_after(line, known) == n);
    let second = input.skip(p + 2);
    assert(second[0] == input[p + 2] && second[1] == input[p + 3]);
    assert(line_end_at(second, 0));
    assert(line_end(second, 0) == Some(0int));
    let third = second.skip(2);
    assert(third =~= content + rest);
    assert(third.take(n as int) =~= content);
    assert(third.skip(n as int) =~= rest);
    assert(decoded(State::ReadingBody, n, third) == Decoded {
        frame: Some(content),
        state: State::ReadingHeaders,
        content_len: 0,
        rest,
    });
    assert(decoded(State::ReadingHeaders, n, second) == decoded(State::ReadingBody, n, third));
}

/// Where the first piece of the input holds no complete frame, going on with what
/// it left and the second piece comes to the same as reading both at once.
pub proof fn decoding_in_pieces(state: State, known: nat, first: Seq<u8>, second: Seq<u8>)
    requires
        decoded(state, known, first).frame is None,
    ensures
        ({
            let d = decoded(state, known, first);
            decoded(d.state, d.content_len, d.rest + second) == decoded(
                state,
                known,
                first + second,
            )
        }),
    decreases first.len(),
{
    let both = first + second;
    line_end_is_first(first, 0);
    line_end_is_first(both, 0);
    match state {
        State::ReadingHeaders => {
            if let Some(at) = line_end(first, 0) {
                assert forall|j: int| 0 <= j <= at implies #[trigger] line_end_at(both, j)
                    == line_end_at(first, j) by {}
                assert(line_end_at(both, at));
                assert(line_end(both, 0) == Some(at));
                assert(both.take(at + 2) =~= first.take(at + 2));
                assert(both.skip(at + 2) =~= first.skip(at + 2) + second);
                if at == 0 {
                    decoding_in_pieces(State::ReadingBody, known, first.skip(2), second);
                } else {
                    decoding_in_pieces(
                        State::ReadingHeaders,
                        length_after(first.take(at + 2), known),
                        first.skip(at + 2),
                        second,
                    );
                }
            }
        },
        State::ReadingBody => {},
    }
}

/// A frame that is complete comes out the same with more input behind it, and
/// what is behind it is left.
pub proof fn complete_frame_stays(state: State, known: nat, first: Seq<u8>, second: Seq<u8>)
    requires
        decoded(state, known, first).frame is Some,
    ensures
        ({
            let d = decoded(state, known, first);
            decoded(state, known, first + second) == (Decoded { rest: d.rest + second, ..d })
        }),
    decreases first.len(),
{
    let both = first + second;
    line_end_is_first(first, 0);
    line_end_is_first(both, 0);
    match state {
        State::ReadingHeaders => {
            if let Some(at) = line_end(first, 0) {
                assert forall|j: int| 0 <= j <= at implies #[trigger] line_end_at(both, j)
                    == line_end_at(first, j) by {}
                assert(line_end_at(both, at));
                assert(line_end(both, 0) == Some(at));
                assert(both.take(at + 2) =~= first.take(at + 2));
                assert(both.skip(at + 2) =~= first.skip(at + 2) + second);
                if at == 0 {
                    complete_frame_stays(State::ReadingBody, known, first.skip(2), second);
                } else {
                    complete_frame_stays(
                        State::ReadingHeaders,
                        length_after(first.take(at + 2), known),
                        first.skip(at + 2),
                        second,
                    );
                }
            }
        },
        State::ReadingBody => {
            assert(both.take(known as int) =~= first.take(known as int));
            assert(both.skip(known as int) =~= first.skip(known as int) + second);
        },
    }
}

/// A complete frame leads back to the headers, and if it was read from there, it
/// took some of the input.
proof fn frame_takes_input(state: State, known: nat, input: Seq<u8>)
    ensures
        ({
            let d = decoded(state, known, input);
            d.frame is Some ==> {
                &&& d.state == State::ReadingHeaders
                &&& d.rest.len() <= input.len()
                &&& state == State::ReadingHeaders ==> d.rest.len() < input.len()
            }
        }),
    decreases input.len(),
{
    if state == State::ReadingHeaders {
        if let Some(at) = line_end(input, 0) {
            if 0 <= at && at + 2 <= input.len() {
                let rest = input.skip(at + 2);
                if at == 0 {
                    frame_takes_input(State::ReadingBody, known, rest);
                } else {
                    frame_takes_input(
                        State::ReadingHeaders,
                        length_after(input.take(at + 2), known),
                        rest,
                    );
                }
            }
        }
    }
}

/// What becomes of the decoder and of its input when it is read from until no
/// complete frame is left: the contents of the frames in order, the state and the
/// content length, and the bytes that are left.
#[verifier::ext_equal]
pub struct DecodedAll {
    pub frames: Seq<Seq<u8>>,
    pub state: State,
    pub content_len: nat,
    pub rest: Seq<u8>,
}

/// Reading `input` until no complete frame is left.
pub open spec fn decoded_all(state: State, content_len: nat, input: Seq<u8>) -> DecodedAll
    decreases
        input.len(),
        if state == State::ReadingBody {
            1int
        } else {
            0int
        },
    via decoded_all_ends
{
    let d = decoded(state, content_len, input);
    match d.frame {
        None => DecodedAll {
            frames: Seq::empty(),
            state: d.state,
            content_len: d.content_len,
            rest: d.rest,
        },
        Some(frame) => {
            let more = decoded_all(d.state, d.content_len, d.rest);
            DecodedAll { frames: seq![frame] + more.frames, ..more }
        },
    }
}

#[via_fn]
proof fn decoded_all_ends(state: State, content_len: nat, input: Seq<u8>) {
    frame_takes_input(state, content_len, input);
}

/// It does not matter how the input is cut into pieces: reading the first piece to
/// its end, and then what it left with the second piece behind it, gives the same
/// frames in the same order as reading both at once, and leaves the same.
pub proof fn cut_does_not_matter(state: State, known: nat, first: Seq<u8>, second: Seq<u8>)
    ensures
        ({
            let a = decoded_all(state, known, first);
            let b = decoded_all(a.state, a.content_len, a.rest + second);
            decoded_all(state, known, first + second) == (DecodedAll {
                frames: a.frames + b.frames,
                ..b
            })
        }),
    decreases
        first.len(),
        if state == State::ReadingBody {
            1int
        } else {
            0int
        },
{
    let d = decoded(state, known, first);
    let a = decoded_all(state, known, first);
    let b = decoded_all(a.state, a.content_len, a.rest + second);
    match d.frame {
        None => {
            decoding_in_pieces(state, known, first, second);
            assert(a.frames + b.frames =~= b.frames);
            assert(decoded_all(state, known, first + second) == b);
        },
        Some(frame) => {
            frame_takes_input(state, known, first);
            complete_frame_stays(state, known, first, second);
            cut_does_not_matter(d.state, d.content_len, d.rest, second);
            let more = decoded_all(d.state, d.content_len, d.rest);
            assert(seq![frame] + (more.frames + b.frames) =~= a.frames + b.frames);
        },
    }
}

/// Reading never changes or loses bytes: what is left is the end of the input.
pub proof fn rest_is_end_of_input(state: State, known: nat, input: Seq<u8>)
    ensures
        decoded(state, known, input).rest.is_suffix_of(input),
    decreases input.len(),
{
    line_end_is_first(input, 0);
    match state {
        State::ReadingHeaders => {
            if let Some(at) = line_end(input, 0) {
                let rest = input.skip(at + 2);
                if at == 0 {
                    rest_is_end_of_input(State::ReadingBody, known, rest);
                } else {
                    rest_is_end_of_input(
                        State::ReadingHeaders,
                        length_after(input.take(at + 2), known),
                        rest,
                    );
                }
            }
        },
        State::ReadingBody => {},
    }
}

/// The value of a frame: what its content is in JSON, and null where it is none.
pub open spec fn frame_value(content: Seq<u8>) -> JsonView {
    if valid_utf8(content) {
        match json_of(decode_utf8(content)) {
            Some(value) => value,
            None => JsonView::Null,
        }
    } else {
        JsonView::Null
    }
}

/// What is handed on of a frame that is no message of the protocol: its value.
pub fn refused_value(content: &[u8]) -> (r: Json)
    ensures
        r.wf(),
        r.view() == frame_value(content@),
{
    match text_of(content) {
        Some(text) => match parse_json(text.as_str()) {
            Some(value) => value,
            None => Json::Null,
        },
        None => Json::Null,
    }
}

/// A frame that is no message of the protocol is handed on as what its text is in
/// JSON, or as null, and the frame behind it is read as if this one had not been
/// there.
pub proof fn refused_frame_disturbs_nothing(known: nat, body: Seq<char>, rest: Seq<u8>)
    requires
        encode_utf8(body).len() <= usize::MAX,
    ensures
        ({
            let d = decoded(
                State::ReadingHeaders,
                known,
                framed(encode_utf8(body)) + rest,
            );
            &&& d.frame is Some
            &&& frame_value(d.frame->0) == (match json_of(body) {
                Some(value) => value,
                None => JsonView::Null,
            })
            &&& decoded(d.state, d.content_len, d.rest) == decoded(State::ReadingHeaders, 0, rest)
        }),
{
    decode_gives_back_what_encode_wrote(known, encode_utf8(body), rest);
    vstd::utf8::encode_utf8_valid_utf8(body);
    vstd::utf8::encode_utf8_decode_utf8(body);
}

/// A frame that is written is the number of its bytes in a line, an empty line and these
/// bytes, behind what the buffer held before.
pub proof fn frame_tells_its_length(
    codec: &DAPCodec,
    content: &[u8],
    digits: String,
    before: BytesMut,
    after: BytesMut,
)
    requires
        call_ensures(unsigned_text, (content@.len() as u64,), digits),
        content@.len() <= usize::MAX,
        exists|b: &mut BytesMut|
            *b == before && *final(b) == after && #[trigger] call_ensures(
                DAPCodec::encode_frame,
                (codec, content, b),
                (),
            ),
    ensures
        buffered(after) == buffered(before) + encode_utf8(
            "Content-Length: "@ + digits@ + "\r\n\r\n"@,
        ) + content@,
{
    assert(buffered(before) + framed(content@) =~= buffered(before) + encode_utf8(
        frame_header(content@.len()),
    ) + content@);
}

/// A frame that was written comes back when it is read, with what stands behind it left
/// and the next frame awaited, whatever length was known before.
pub proof fn written_frame_is_read(
    codec: &DAPCodec,
    content: &[u8],
    empty: BytesMut,
    written: BytesMut,
    input: BytesMut,
    rest: Seq<u8>,
    before: DAPCodec,
    after: DAPCodec,
    left: BytesMut,
    r: Option<BytesMut>,
)
    requires
        buffered(empty).len() == 0,
        content@.len() <= usize::MAX,
        exists|b: &mut BytesMut|
            *b == empty && *final(b) == written && #[trigger] call_ensures(
                DAPCodec::encode_frame,
                (codec, content, b),
                (),
            ),
        buffered(input) == buffered(written) + rest,
        before.state is ReadingHeaders,
        exists|c: &mut DAPCodec, b: &mut BytesMut|
            *c == before && *final(c) == after && *b == input && *final(b) == left
                && #[trigger] call_ensures(DAPCodec::decode_frame, (c, b), r),
    ensures
        r matches Some(frame) && buffered(frame) == content@,
        buffered(left) == rest,
        after.state is ReadingHeaders,
{
    decode_gives_back_what_encode_wrote(before.content_len as nat, content@, rest);
    assert(buffered(written) =~= framed(content@));
}

/// The content of a frame is as many bytes as were told. Before all of them are there
/// nothing is taken, and neither is anything of a header line that is not complete.
pub proof fn content_is_waited_for(
    before: DAPCodec,
    input: BytesMut,
    after: DAPCodec,
    left: BytesMut,
    r: Option<BytesMut>,
)
    requires
        exists|c: &mut DAPCodec, b: &mut BytesMut|
            *c == before && *final(c) == after && *b == input && *final(b) == left
                && #[trigger] call_ensures(DAPCodec::decode_frame, (c, b), r),
    ensures
        before.state is ReadingBody ==> (r is Some <==> buffered(input).len()
            >= before.content_len),
        before.state is ReadingBody ==> (r matches Some(frame) ==> buffered(frame).len()
            == before.content_len && buffered(input) == buffered(frame) + buffered(left)
            && after.state is ReadingHeaders),
        before.state is ReadingBody && r is None ==> after == before && buffered(left) == buffered(
            input,
        ),
        before.state is ReadingHeaders && (forall|i: int|
            0 <= i < buffered(input).len() - 1 ==> !(#[trigger] buffered(input)[i] == 13
                && buffered(input)[i + 1] == 10)) ==> r is None && after == before && buffered(left)
            == buffered(input),
{
    let b = buffered(input);
    line_end_is_first(b, 0);
    if before.state is ReadingBody && r is Some {
        assert(b =~= b.take(before.content_len as int) + b.skip(before.content_len as int));
    }
}

/// Reading a header line and what stands behind it is reading what stands behind it, with
/// the length that the line left.
proof fn header_line_is_taken_off(text: Seq<char>, known: nat, rest: Seq<u8>)
    requires
        text.len() > 0,
        vstd::utf8::is_ascii_chars(text),
        forall|i: int| 0 <= i < text.len() ==> #[trigger] text[i] != '\r',
    ensures
        ({
            let line = text + seq!['\r', '\n'];
            &&& valid_utf8(encode_utf8(line))
            &&& decode_utf8(encode_utf8(line)) == line
            &&& decoded(State::ReadingHeaders, known, encode_utf8(line) + rest) == decoded(
                State::ReadingHeaders,
                length_after(encode_utf8(line), known),
                rest,
            )
        }),
{
    let line = text + seq!['\r', '\n'];
    let b = encode_utf8(line);
    assert forall|i: int| 0 <= i < line.len() implies (#[trigger] line[i] as u32) < 128 by {
        if i < text.len() {
            assert(line[i] == text[i]);
        }
    }
    vstd::utf8::is_ascii_chars_encode_utf8(line);
    vstd::utf8::encode_utf8_valid_utf8(line);
    vstd::utf8::encode_utf8_decode_utf8(line);
    let input = b + rest;
    let at = text.len() as int;
    assert forall|j: int| 0 <= j < line.len() implies #[trigger] input[j] == line[j] as u8 by {
        assert(input[j] == b[j]);
    }
    assert(line[at] == '\r' && line[at + 1] == '\n');
    assert(line_end_at(input, at));
    assert forall|j: int| 0 <= j < at implies !#[trigger] line_end_at(input, j) by {
        assert(input[j] == line[j] as u8);
        assert(line[j] == text[j]);
        assert((text[j] as u32) < 128);
    }
    line_end_is_first(input, 0);
    assert(line_end(input, 0) == Some(at));
    assert(input.take(at + 2) =~= b);
    assert(input.skip(at + 2) =~= rest);
}

/// The header `Content-Length`, in capitals or small letters, tells the length of the
/// content, whatever was known before: reading goes on behind it with that length.
pub proof fn length_is_told_by_its_header(
    name: Seq<char>,
    n: usize,
    rest: Seq<u8>,
    input: BytesMut,
    behind: BytesMut,
    before: DAPCodec,
    told: DAPCodec,
    after: DAPCodec,
    after_told: DAPCodec,
    left: BytesMut,
    left_told: BytesMut,
    r: Option<BytesMut>,
    r_told: Option<BytesMut>,
)
    requires
        before.state is ReadingHeaders,
        told.state is ReadingHeaders,
        buffered(behind) == rest,
        exists|c: &mut DAPCodec, b: &mut BytesMut|
            *c == before && *final(c) == after && *b == input && *final(b) == left
                && #[trigger] call_ensures(DAPCodec::decode_frame, (c, b), r),
        exists|c: &mut DAPCodec, b: &mut BytesMut|
            *c == told && *final(c) == after_told && *b == behind && *final(b) == left_told
                && #[trigger] call_ensures(DAPCodec::decode_frame, (c, b), r_told),
        name.len() == 15,
        forall|i: int|
            0 <= i < 15 ==> #[trigger] name[i] == "Content-Length:"@[i] || name[i]
                == "content-length:"@[i] || name[i] == "CONTENT-LENGTH:"@[i],
        told.content_len == n,
        buffered(input) == encode_utf8(
            name + seq![' '] + decimal(n as nat) + seq!['\r', '\n'],
        ) + rest,
    ensures
        r is Some == r_told is Some,
        r matches Some(x) ==> (r_told matches Some(y) ==> buffered(x) == buffered(y)),
        after.state == after_told.state,
        after.content_len == after_told.content_len,
        buffered(left) == buffered(left_told),
{
    reveal_strlit("Content-Length:");
    reveal_strlit("content-length:");
    reveal_strlit("CONTENT-LENGTH:");
    let known = before.content_len as nat;
    let d = decimal(n as nat);
    let text = name + seq![' '] + d;
    crate::number::decimal_is_digits(n as nat);
    assert forall|i: int| 0 <= i < text.len() implies (#[trigger] text[i] as u32) < 128 && text[i]
        != '\r' by {
        if i < 15 {
            assert(text[i] == name[i]);
        } else if i > 15 {
            assert(text[i] == d[i - 16]);
            assert(crate::number::is_digit(d[i - 16]));
        }
    }
    header_line_is_taken_off(text, known, rest);
    let line = text + seq!['\r', '\n'];
    assert(line.take(15) =~= name);
    assert(ascii_lowered(name) =~= "content-length:"@) by {
        assert forall|i: int| 0 <= i < 15 implies ascii_lower(#[trigger] name[i])
            == "content-length:"@[i] by {}
    }
    assert(line.skip(15) =~= seq![' '] + d + seq!['\r', '\n']);
    trimmed_number(n as nat);
    crate::number::decimal_read_back(n as nat, usize::MAX as nat);
    assert(length_after(encode_utf8(line), known) == n);
}

/// A header line that does not begin with `Content-Length:`, in capitals or small letters,
/// is passed over: reading goes on behind it with the length that was known.
pub proof fn other_headers_are_passed_over(
    text: Seq<char>,
    at: int,
    rest: Seq<u8>,
    input: BytesMut,
    behind: BytesMut,
    before: DAPCodec,
    told: DAPCodec,
    after: DAPCodec,
    after_told: DAPCodec,
    left: BytesMut,
    left_told: BytesMut,
    r: Option<BytesMut>,
    r_told: Option<BytesMut>,
)
    requires
        before.state is ReadingHeaders,
        told.state is ReadingHeaders,
        buffered(behind) == rest,
        exists|c: &mut DAPCodec, b: &mut BytesMut|
            *c == before && *final(c) == after && *b == input && *final(b) == left
                && #[trigger] call_ensures(DAPCodec::decode_frame, (c, b), r),
        exists|c: &mut DAPCodec, b: &mut BytesMut|
            *c == told && *final(c) == after_told && *b == behind && *final(b) == left_told
                && #[trigger] call_ensures(DAPCodec::decode_frame, (c, b), r_told),
        text.len() > 0,
        vstd::utf8::is_ascii_chars(text),
        forall|i: int| 0 <= i < text.len() ==> #[trigger] text[i] != '\r',
        0 <= at < 15,
        at < text.len() ==> text[at] != "Content-Length:"@[at] && text[at]
            != "content-length:"@[at] && text[at] != "CONTENT-LENGTH:"@[at],
        told.content_len == before.content_len,
        buffered(input) == encode_utf8(text + seq!['\r', '\n']) + rest,
    ensures
        r is Some == r_told is Some,
        r matches Some(x) ==> (r_told matches Some(y) ==> buffered(x) == buffered(y)),
        after.state == after_told.state,
        after.content_len == after_told.content_len,
        buffered(left) == buffered(left_told),
{
    reveal_strlit("Content-Length:");
    reveal_strlit("content-length:");
    reveal_strlit("CONTENT-LENGTH:");
    let known = before.content_len as nat;
    header_line_is_taken_off(text, known, rest);
    let line = text + seq!['\r', '\n'];
    if line.len() > 15 {
        let first = ascii_lowered(line.take(15));
        if at < text.len() {
            assert(first[at] == ascii_lower(text[at]));
            assert(first[at] != "content-length:"@[at]);
        } else {
            assert(text.len() == 14);
            assert(first[14] == ascii_lower('\r'));
        }
    }
    assert(length_after(encode_utf8(line), known) == known);
}

/// The bytes of a text in JSON are handed on as its value.
pub proof fn refused_content_is_its_value(
    content: &[u8],
    text: &str,
    r: Json,
    read: Option<Json>,
)
    requires
        content@ == encode_utf8(text@),
        call_ensures(refused_value, (content,), r),
        call_ensures(parse_json, (text,), read),
    ensures
        match read {
            Some(value) => r.view() == value.view(),
            None => r.view() is Null,
        },
{
    vstd::utf8::encode_utf8_valid_utf8(text@);
    vstd::utf8::encode_utf8_decode_utf8(text@);
}

/// A length that cannot be read tells nothing: reading goes on behind it with the length
/// that was known.
pub proof fn unreadable_length_tells_nothing(
    value: Seq<char>,
    line_end: &str,
    cut: String,
    number: &str,
    why: crate::number::IntError,
    rest: Seq<u8>,
    input: BytesMut,
    behind: BytesMut,
    before: DAPCodec,
    after: DAPCodec,
    after_behind: DAPCodec,
    left: BytesMut,
    left_behind: BytesMut,
    r: Option<BytesMut>,
    r_behind: Option<BytesMut>,
)
    requires
        before.state is ReadingHeaders,
        buffered(behind) == rest,
        exists|c: &mut DAPCodec, b: &mut BytesMut|
            *c == before && *final(c) == after && *b == input && *final(b) == left
                && #[trigger] call_ensures(DAPCodec::decode_frame, (c, b), r),
        exists|c: &mut DAPCodec, b: &mut BytesMut|
            *c == before && *final(c) == after_behind && *b == behind && *final(b) == left_behind
                && #[trigger] call_ensures(DAPCodec::decode_frame, (c, b), r_behind),
        vstd::utf8::is_ascii_chars(value),
        forall|i: int| 0 <= i < value.len() ==> #[trigger] value[i] != '\r',
        line_end@ == value + seq!['\r', '\n'],
        call_ensures(trim, (line_end,), cut),
        number@ == cut@,
        call_ensures(parse_usize, (number,), Err(why)),
        buffered(input) == encode_utf8("Content-Length:"@ + value + seq!['\r', '\n']) + rest,
    ensures
        r is Some == r_behind is Some,
        r matches Some(x) ==> (r_behind matches Some(y) ==> buffered(x) == buffered(y)),
        after.state == after_behind.state,
        after.content_len == after_behind.content_len,
        buffered(left) == buffered(left_behind),
{
    reveal_strlit("Content-Length:");
    let known = before.content_len as nat;
    let text = "Content-Length:"@ + value;
    assert forall|i: int| 0 <= i < text.len() implies (#[trigger] text[i] as u32) < 128 && text[i]
        != '\r' by {
        if i < 15 {
            assert(text[i] == "Content-Length:"@[i]);
        } else {
            assert(text[i] == value[i - 15]);
        }
    }
    header_line_is_taken_off(text, known, rest);
    let line = text + seq!['\r', '\n'];
    assert(line.skip(15) =~= line_end@);
    assert(length_after(encode_utf8(line), known) == known);
}

} // verus!
