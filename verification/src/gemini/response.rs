//! A response: its header, and the body that may follow it.
//!
//! A server answers with the header line and, directly after its CR LF, the
//! body. Nothing marks the end of the body but the end of the stream, so a
//! response is taken apart only once all of it has been read.

use vstd::prelude::*;
use vstd::slice::{slice_subrange, slice_to_vec};
use vstd::string::*;
use vstd::utf8::{
    char_is_scalar, char_u32_cast, decode_utf8, encode_scalar, encode_utf8, encode_utf8_decode_utf8,
    encode_utf8_valid_utf8, has_width_1_encoding, leading_byte_width_1, valid_utf8,
};

use crate::gemini::error::{view_result, Error, ErrorView};
use crate::gemini::header::{
    lemma_header_round_trip, lemma_wire_digits, parse_header, wire_of, Header, HeaderView,
};

verus! {

/// A response of a server.
#[derive(Clone, Debug, PartialEq, Eq)]
pub struct Response {
    /// The header that the server answered with.
    pub header: Header,
    /// The bytes after the header; `None` where there are none.
    pub body: Option<Vec<u8>>,
}

/// [`Response`] with its header's view and its body as a byte sequence.
pub struct ResponseView {
    pub header: HeaderView,
    pub body: Option<Seq<u8>>,
}

impl View for Response {
    type V = ResponseView;

    open spec fn view(&self) -> ResponseView {
        ResponseView {
            header: self.header@,
            body: match self.body {
                Some(bytes) => Some(bytes@),
                None => None,
            },
        }
    }
}

impl ResponseView {
    /// A response is well formed when its header is, and its body, where it
    /// has one, is not empty.
    pub open spec fn wf(self) -> bool {
        &&& self.header.wf()
        &&& self.body matches Some(bytes) ==> bytes.len() > 0
    }
}

/// The body that the bytes after a header make: none where there are no
/// bytes.
pub open spec fn body_of(bytes: Seq<u8>) -> Option<Seq<u8>> {
    if bytes.len() == 0 {
        None
    } else {
        Some(bytes)
    }
}

/// Index of the first CR that a LF follows, at or after `from`; an index
/// with no byte after it if there is none.
pub open spec fn find_crlf(raw: Seq<u8>, from: int) -> int
    decreases raw.len() - from,
{
    if 0 <= from && from + 1 < raw.len() && !(raw[from] == 13 && raw[from + 1] == 10) {
        find_crlf(raw, from + 1)
    } else {
        from
    }
}

/// The length of the header of a response, its CR LF included: the index
/// just after the first CR LF. `None` where the response holds no CR LF.
pub open spec fn header_len(raw: Seq<u8>) -> Option<int> {
    let at = find_crlf(raw, 0);
    if at + 1 < raw.len() {
        Some(at + 2)
    } else {
        None
    }
}

/// The text that `String::from_utf8_lossy` makes of bytes that are not
/// UTF-8: what they encode, with U+FFFD in place of each part that encodes
/// nothing.
pub uninterp spec fn utf8_lossy(bytes: Seq<u8>) -> Seq<char>;

/// The text that bytes are read as: the text that they encode where they
/// are UTF-8, and what [`utf8_lossy`] makes of them where they are not.
pub open spec fn lossy_text(bytes: Seq<u8>) -> Seq<char> {
    if valid_utf8(bytes) {
        decode_utf8(bytes)
    } else {
        utf8_lossy(bytes)
    }
}

/// The message of the error for a response without CR LF.
pub open spec fn missing_terminator() -> Seq<char> {
    "There must be at least 1 <CR><LF> at the end of the header, but such a sequence was not found."@
}

/// What a response parses to, given all bytes that the server sent.
///
/// The header ends with the first CR LF, and what follows it is the body.
/// The header is read as text, and then parsed as [`parse_header`] says.
pub open spec fn parse_response(raw: Seq<u8>) -> Result<ResponseView, ErrorView> {
    match header_len(raw) {
        Some(cut) => match parse_header(lossy_text(raw.take(cut))) {
            Ok(header) => Ok(ResponseView { header, body: body_of(raw.skip(cut)) }),
            Err(error) => Err(error),
        },
        None => Err(ErrorView::HeaderFormat(missing_terminator())),
    }
}

/// `find_crlf` stops at the first CR LF and passes over none.
pub proof fn lemma_find_crlf(raw: Seq<u8>, from: int)
    requires
        0 <= from,
    ensures
        from <= find_crlf(raw, from),
        from + 1 < raw.len() ==> find_crlf(raw, from) + 1 <= raw.len(),
        forall|k: int|
            from <= k < find_crlf(raw, from) ==> !(#[trigger] raw[k] == 13 && raw[k + 1] == 10),
        find_crlf(raw, from) + 1 < raw.len() ==> raw[find_crlf(raw, from)] == 13 && raw[find_crlf(
            raw,
            from,
        ) + 1] == 10,
    decreases raw.len() - from,
{
    if from + 1 < raw.len() && !(raw[from] == 13 && raw[from + 1] == 10) {
        lemma_find_crlf(raw, from + 1);
    }
}

/// The header of a response ends with its first CR LF: the header holds at
/// least those two bytes, ends in them, and holds no other CR LF.
pub proof fn lemma_header_len(raw: Seq<u8>)
    ensures
        match header_len(raw) {
            Some(cut) => {
                &&& 2 <= cut <= raw.len()
                &&& raw[cut - 2] == 13
                &&& raw[cut - 1] == 10
                &&& forall|k: int|
                    0 <= k < cut - 2 ==> !(#[trigger] raw[k] == 13 && raw[k + 1] == 10)
            },
            None => forall|k: int|
                0 <= k && k + 1 < raw.len() ==> !(#[trigger] raw[k] == 13 && raw[k + 1] == 10),
        },
{
    lemma_find_crlf(raw, 0);
}

/// The encoding of a character is one byte below 128, the character
/// itself, or two to four bytes that are all 128 or above.
pub proof fn lemma_encoded_char(c: char)
    ensures
        ({
            let bytes = encode_scalar(c as u32);
            &&& 1 <= bytes.len() <= 4
            &&& c as u32 <= 0x7F ==> bytes == seq![c as u8] && c as u8 == c as u32
            &&& c as u32 > 0x7F ==> forall|k: int| 0 <= k < bytes.len() ==> bytes[k] >= 0x80
        }),
{
    let u = c as u32;
    char_is_scalar(c);
    if has_width_1_encoding(u) {
        assert(u as u8 == leading_byte_width_1(u)) by (bit_vector)
            requires
                has_width_1_encoding(u),
        ;
    } else {
        assert forall|high: u8, low: u8| high >= 0x80 implies #[trigger] (high | low) >= 0x80 by {
            assert(high >= 0x80 ==> (high | low) >= 0x80) by (bit_vector);
        }
    }
}

/// The encoding of a text is the encoding of its parts, one after the
/// other.
pub proof fn lemma_encode_concat(first: Seq<char>, second: Seq<char>)
    ensures
        encode_utf8(first + second) == encode_utf8(first) + encode_utf8(second),
    decreases first.len(),
{
    if first.len() > 0 {
        lemma_encode_concat(first.drop_first(), second);
        assert((first + second).drop_first() == first.drop_first() + second);
    }
}

/// CR LF stands in the encoding of a text only where it stands in the text:
/// a text without CR LF has an encoding without CR LF.
pub proof fn lemma_encoded_crlf(text: Seq<char>)
    requires
        forall|k: int|
            0 <= k && k + 1 < text.len() ==> !(#[trigger] text[k] == '\r' && text[k + 1] == '\n'),
    ensures
        forall|k: int|
            0 <= k && k + 1 < encode_utf8(text).len() ==> !(#[trigger] encode_utf8(text)[k] == 13
                && encode_utf8(text)[k + 1] == 10),
    decreases text.len(),
{
    if text.len() > 0 {
        let head = encode_scalar(text[0] as u32);
        let others = text.drop_first();
        let tail = encode_utf8(others);
        let bytes = encode_utf8(text);
        assert(bytes == head + tail);
        lemma_encoded_char(text[0]);
        assert forall|k: int| 0 <= k && k + 1 < others.len() implies !(#[trigger] others[k] == '\r'
            && others[k + 1] == '\n') by {}
        lemma_encoded_crlf(others);
        assert forall|k: int| 0 <= k && k + 1 < bytes.len() implies !(#[trigger] bytes[k] == 13
            && bytes[k + 1] == 10) by {
            if k + 1 == head.len() && bytes[k] == 13 && bytes[k + 1] == 10 {
                // The CR is all of the first character, the LF begins the second.
                char_u32_cast(text[0], 13);
                lemma_encoded_char(others[0]);
                char_u32_cast(others[0], 10);
            }
        }
    }
}

/// A response survives the wire. The bytes that stand for a well-formed
/// header, followed by any body, parse to that header and that body,
/// provided that the meta string holds no CR LF, which would end the header
/// early.
pub proof fn lemma_response_round_trip(header: HeaderView, body: Seq<u8>)
    requires
        header.wf(),
        forall|k: int|
            0 <= k && k + 1 < header.meta.len() ==> !(#[trigger] header.meta[k] == '\r'
                && header.meta[k + 1] == '\n'),
    ensures
        parse_response(encode_utf8(header.wire()) + body) == Ok::<ResponseView, ErrorView>(
            ResponseView { header, body: body_of(body) },
        ),
{
    let line = header.wire();
    let front = wire_of(header.status) + seq![' '] + header.meta;
    let bytes = encode_utf8(line);
    let raw = bytes + body;
    lemma_wire_digits(header.status);
    assert forall|k: int| 0 <= k && k + 1 < front.len() implies !(#[trigger] front[k] == '\r'
        && front[k + 1] == '\n') by {}
    lemma_encoded_crlf(front);
    lemma_encode_concat(front, seq!['\r', '\n']);
    lemma_encoded_char('\r');
    lemma_encoded_char('\n');
    reveal_with_fuel(encode_utf8, 3);
    assert(encode_utf8(seq!['\r', '\n']) == seq![13u8, 10u8]);
    let cut = encode_utf8(front).len() as int;
    assert forall|k: int| 0 <= k < cut implies !(#[trigger] raw[k] == 13 && raw[k + 1] == 10) by {}
    lemma_find_crlf_is(raw, 0, cut);
    assert(raw.take(cut + 2) == bytes);
    assert(raw.skip(cut + 2) == body);
    encode_utf8_valid_utf8(line);
    encode_utf8_decode_utf8(line);
    lemma_header_round_trip(header);
}

/// The first CR LF at or after `from` is found by `find_crlf`.
proof fn lemma_find_crlf_is(raw: Seq<u8>, from: int, at: int)
    requires
        0 <= from <= at,
        at + 1 < raw.len(),
        forall|k: int| from <= k < at ==> !(#[trigger] raw[k] == 13 && raw[k + 1] == 10),
        raw[at] == 13 && raw[at + 1] == 10,
    ensures
        find_crlf(raw, from) == at,
    decreases at - from,
{
    if from < at {
        lemma_find_crlf_is(raw, from + 1, at);
    }
}

/// `String::from_utf8_lossy`, which reads bytes as UTF-8 and puts U+FFFD in
/// place of what is not. The contract says that bytes which are UTF-8 give
/// the text that they encode, and only names the result for all others.
#[verifier::external_body]
fn decode_lossy(bytes: &[u8]) -> (text: String)
    ensures
        valid_utf8(bytes@) ==> text@ == decode_utf8(bytes@),
        !valid_utf8(bytes@) ==> text@ == utf8_lossy(bytes@),
{
    String::from_utf8_lossy(bytes).into_owned()
}

/// Where the header of a response ends: the index just after the first
/// CR LF.
pub fn header_cutoff(raw: &[u8]) -> (cut: Option<usize>)
    ensures
        match cut {
            Some(at) => header_len(raw@) == Some(at as int),
            None => header_len(raw@) is None,
        },
{
    let mut at: usize = 0;
    while at < raw.len() && raw.len() - at > 1
        invariant
            find_crlf(raw@, 0) == find_crlf(raw@, at as int),
        decreases raw.len() - at,
    {
        if raw[at] == 13 && raw[at + 1] == 10 {
            return Some(at + 2);
        }
        at += 1;
    }
    None
}

/// Splits a response into the text of its header, CR LF included, and its
/// body.
///
/// Fails with [`Error::HeaderFormat`] where the response holds no CR LF.
pub fn split_response(raw: &[u8]) -> (r: Result<(String, Option<Vec<u8>>), Error>)
    ensures
        match r {
            Ok((header, body)) => {
                &&& header_len(raw@) matches Some(cut)
                &&& header@ == lossy_text(raw@.take(cut))
                &&& match body {
                    Some(bytes) => body_of(raw@.skip(cut)) == Some(bytes@),
                    None => body_of(raw@.skip(cut)) is None,
                }
            },
            Err(error) => {
                &&& header_len(raw@) is None
                &&& error@ == ErrorView::HeaderFormat(missing_terminator())
            },
        },
{
    match header_cutoff(raw) {
        Some(cut) => {
            proof {
                lemma_header_len(raw@);
            }
            let header = decode_lossy(slice_subrange(raw, 0, cut));
            let rest = slice_subrange(raw, cut, raw.len());
            let body = if rest.len() == 0 {
                None
            } else {
                Some(slice_to_vec(rest))
            };
            Ok((header, body))
        },
        None => Err(
            Error::HeaderFormat(
                String::from_str(
                    "There must be at least 1 <CR><LF> at the end of the header, but such a sequence was not found.",
                ),
            ),
        ),
    }
}

impl Response {
    /// A response of a header and a body. A body without bytes is no body.
    #[must_use]
    pub fn new(header: Header, body: Option<Vec<u8>>) -> (r: Response)
        ensures
            r.header == header,
            r@.body == match body {
                Some(bytes) => body_of(bytes@),
                None => None,
            },
            header@.wf() ==> r@.wf(),
    {
        let body = match body {
            Some(bytes) => if bytes.len() == 0 {
                None
            } else {
                Some(bytes)
            },
            None => None,
        };
        Response { header, body }
    }

    /// Parses a response from all the bytes that the server sent.
    ///
    /// Fails with [`Error::HeaderFormat`] where the bytes hold no CR LF, or
    /// the line that ends with the first one is no header.
    pub fn from_bytes(raw: &[u8]) -> (r: Result<Response, Error>)
        ensures
            view_result(r) == parse_response(raw@),
            r matches Ok(response) ==> response@.wf(),
    {
        match split_response(raw) {
            Ok((text, body)) => match Header::try_from(text) {
                Ok(header) => Ok(Response::new(header, body)),
                Err(error) => Err(error),
            },
            Err(error) => Err(error),
        }
    }
}

} // verus!
