//! The header of a response: a two-digit status and a meta string.
//!
//! On the wire a header is `<STATUS><SPACE><META><CR><LF>`. The status is
//! one of eighteen two-digit numbers; every other number is an error.

use vstd::prelude::*;
use vstd::string::*;
use vstd::utf8::encode_utf8;

use crate::gemini::error::{view_result, Error, ErrorView};
use crate::gemini::text::{decimal, decimal_string, digit_char};

verus! {

/// The kinds of input that a server can ask for.
#[derive(Clone, Copy, Debug, PartialEq, Eq, Structural)]
pub enum InputCode {
    Input,
    Sensitive,
}

/// The kinds of redirect.
#[derive(Clone, Copy, Debug, PartialEq, Eq, Structural)]
pub enum RedirectCode {
    Temporary,
    Permanent,
}

/// The kinds of temporary failure.
#[derive(Clone, Copy, Debug, PartialEq, Eq, Structural)]
pub enum FailTemporaryCode {
    Temporary,
    ServerUnavailable,
    CGIError,
    ProxyError,
    SlowDown,
}

/// The kinds of permanent failure.
#[derive(Clone, Copy, Debug, PartialEq, Eq, Structural)]
pub enum FailPermanentCode {
    Permanent,
    NotFound,
    Gone,
    ProxyRefused,
    BadRequest,
}

/// The kinds of certificate failure.
#[derive(Clone, Copy, Debug, PartialEq, Eq, Structural)]
pub enum CertFailCode {
    CertRequired,
    CertNotAuthorized,
    CertNotValid,
}

/// The status of a response.
#[derive(Clone, Copy, Debug, PartialEq, Eq, Structural)]
pub enum StatusCode {
    Input(InputCode),
    Success,
    Redirect(RedirectCode),
    FailTemporary(FailTemporaryCode),
    FailPermanent(FailPermanentCode),
    CertFail(CertFailCode),
}

/// The header of a response.
#[derive(Clone, Debug, PartialEq, Eq)]
pub struct Header {
    /// The status of the response.
    pub status: StatusCode,
    /// The meta string; empty where the server sent none.
    pub meta: String,
}

/// [`Header`] with its meta string as a character sequence.
pub struct HeaderView {
    pub status: StatusCode,
    pub meta: Seq<char>,
}

impl View for StatusCode {
    type V = StatusCode;

    open spec fn view(&self) -> StatusCode {
        *self
    }
}

impl View for Header {
    type V = HeaderView;

    open spec fn view(&self) -> HeaderView {
        HeaderView { status: self.status, meta: self.meta@ }
    }
}

/// The longest meta string that a header can hold, in bytes of UTF-8.
pub const MAX_META_BYTES: usize = 1024;

/// The number that stands for a status on the wire.
pub open spec fn code_of(status: StatusCode) -> int {
    match status {
        StatusCode::Input(InputCode::Input) => 10,
        StatusCode::Input(InputCode::Sensitive) => 11,
        StatusCode::Success => 20,
        StatusCode::Redirect(RedirectCode::Temporary) => 30,
        StatusCode::Redirect(RedirectCode::Permanent) => 31,
        StatusCode::FailTemporary(FailTemporaryCode::Temporary) => 40,
        StatusCode::FailTemporary(FailTemporaryCode::ServerUnavailable) => 41,
        StatusCode::FailTemporary(FailTemporaryCode::CGIError) => 42,
        StatusCode::FailTemporary(FailTemporaryCode::ProxyError) => 43,
        StatusCode::FailTemporary(FailTemporaryCode::SlowDown) => 44,
        StatusCode::FailPermanent(FailPermanentCode::Permanent) => 50,
        StatusCode::FailPermanent(FailPermanentCode::NotFound) => 51,
        StatusCode::FailPermanent(FailPermanentCode::Gone) => 52,
        StatusCode::FailPermanent(FailPermanentCode::ProxyRefused) => 53,
        StatusCode::FailPermanent(FailPermanentCode::BadRequest) => 59,
        StatusCode::CertFail(CertFailCode::CertRequired) => 60,
        StatusCode::CertFail(CertFailCode::CertNotAuthorized) => 61,
        StatusCode::CertFail(CertFailCode::CertNotValid) => 62,
    }
}

/// The status that a number stands for, if any.
pub open spec fn status_of_code(code: int) -> Option<StatusCode> {
    if code == 10 {
        Some(StatusCode::Input(InputCode::Input))
    } else if code == 11 {
        Some(StatusCode::Input(InputCode::Sensitive))
    } else if code == 20 {
        Some(StatusCode::Success)
    } else if code == 30 {
        Some(StatusCode::Redirect(RedirectCode::Temporary))
    } else if code == 31 {
        Some(StatusCode::Redirect(RedirectCode::Permanent))
    } else if code == 40 {
        Some(StatusCode::FailTemporary(FailTemporaryCode::Temporary))
    } else if code == 41 {
        Some(StatusCode::FailTemporary(FailTemporaryCode::ServerUnavailable))
    } else if code == 42 {
        Some(StatusCode::FailTemporary(FailTemporaryCode::CGIError))
    } else if code == 43 {
        Some(StatusCode::FailTemporary(FailTemporaryCode::ProxyError))
    } else if code == 44 {
        Some(StatusCode::FailTemporary(FailTemporaryCode::SlowDown))
    } else if code == 50 {
        Some(StatusCode::FailPermanent(FailPermanentCode::Permanent))
    } else if code == 51 {
        Some(StatusCode::FailPermanent(FailPermanentCode::NotFound))
    } else if code == 52 {
        Some(StatusCode::FailPermanent(FailPermanentCode::Gone))
    } else if code == 53 {
        Some(StatusCode::FailPermanent(FailPermanentCode::ProxyRefused))
    } else if code == 59 {
        Some(StatusCode::FailPermanent(FailPermanentCode::BadRequest))
    } else if code == 60 {
        Some(StatusCode::CertFail(CertFailCode::CertRequired))
    } else if code == 61 {
        Some(StatusCode::CertFail(CertFailCode::CertNotAuthorized))
    } else if code == 62 {
        Some(StatusCode::CertFail(CertFailCode::CertNotValid))
    } else {
        None
    }
}

/// Whether `c` is one of `0` to `9`.
pub open spec fn is_digit(c: char) -> bool {
    48 <= c as int <= 57
}

/// The two characters that stand for a status on the wire.
pub open spec fn wire_of(status: StatusCode) -> Seq<char> {
    decimal(code_of(status) as nat)
}

/// The status that a text stands for: the text has to be exactly two digits,
/// and the number they spell one of the table.
pub open spec fn status_of_wire(wire: Seq<char>) -> Option<StatusCode> {
    if wire.len() == 2 && is_digit(wire[0]) && is_digit(wire[1]) {
        status_of_code(10 * (wire[0] as int - 48) + (wire[1] as int - 48))
    } else {
        None
    }
}

/// The message of the error for a text that stands for no status.
pub open spec fn unknown_status(wire: Seq<char>) -> Seq<char> {
    "Header status code ("@ + wire + ") was not recognized"@
}

/// What a status text parses to.
pub open spec fn parse_status(wire: Seq<char>) -> Result<StatusCode, ErrorView> {
    match status_of_wire(wire) {
        Some(status) => Ok(status),
        None => Err(ErrorView::HeaderFormat(unknown_status(wire))),
    }
}

/// The length of a text in bytes of UTF-8.
pub open spec fn utf8_len(text: Seq<char>) -> nat {
    encode_utf8(text).len()
}

/// The message of the error for a header without a space after the status.
pub open spec fn missing_space(header: Seq<char>) -> Seq<char> {
    "Missing space after status, provided header: "@ + header
}

/// The message of the error for a header that does not end in CR LF.
pub open spec fn missing_crlf() -> Seq<char> {
    "Meta information for the header doesn't end in <CR><LF>"@
}

/// The message of the error for a meta string of `bytes` bytes.
pub open spec fn meta_too_long(bytes: nat) -> Seq<char> {
    "The header's meta info was too long, maximum length is 1024 bytes, actual length was "@
        + decimal(bytes) + " bytes"@
}

/// What a header line parses to.
///
/// The third character has to be a space, and the line has to end in CR LF
/// after it. The meta string is what stands between the two, with every
/// space it holds, and may take up to 1024 bytes. The first two characters
/// have to stand for a status. The first of these rules that is broken
/// decides the error.
pub open spec fn parse_header(header: Seq<char>) -> Result<HeaderView, ErrorView> {
    let n = header.len() as int;
    if !(n >= 3 && header[2] == ' ') {
        Err(ErrorView::HeaderFormat(missing_space(header)))
    } else if !(n >= 5 && header[n - 2] == '\r' && header[n - 1] == '\n') {
        Err(ErrorView::HeaderFormat(missing_crlf()))
    } else if utf8_len(header.subrange(3, n - 2)) > MAX_META_BYTES {
        Err(ErrorView::HeaderFormat(meta_too_long(utf8_len(header.subrange(3, n - 2)))))
    } else {
        match parse_status(header.subrange(0, 2)) {
            Ok(status) => Ok(HeaderView { status, meta: header.subrange(3, n - 2) }),
            Err(error) => Err(error),
        }
    }
}

impl HeaderView {
    /// A header is well formed when its meta string fits the limit.
    pub open spec fn wf(self) -> bool {
        utf8_len(self.meta) <= MAX_META_BYTES
    }

    /// The header as a line on the wire.
    pub open spec fn wire(self) -> Seq<char> {
        wire_of(self.status) + seq![' '] + self.meta + seq!['\r', '\n']
    }
}

/// The number of every status is in the table and leads back to the status.
pub proof fn lemma_code_round_trip(status: StatusCode)
    ensures
        status_of_code(code_of(status)) == Some(status),
{
}

/// A number that stands for a status is the number of that status.
pub proof fn lemma_code_is_exact(code: int, status: StatusCode)
    requires
        status_of_code(code) == Some(status),
    ensures
        code_of(status) == code,
{
}

/// The wire form of a status has two digits, the tens and the ones of its
/// number.
pub proof fn lemma_wire_digits(status: StatusCode)
    ensures
        wire_of(status).len() == 2,
        wire_of(status)[0] as int == 48 + code_of(status) / 10,
        wire_of(status)[1] as int == 48 + code_of(status) % 10,
{
    reveal_with_fuel(decimal, 2);
}

/// Parsing the wire form of a status gives the status back.
pub proof fn lemma_wire_round_trip(status: StatusCode)
    ensures
        status_of_wire(wire_of(status)) == Some(status),
        parse_status(wire_of(status)) == Ok::<StatusCode, ErrorView>(status),
{
    lemma_wire_digits(status);
    lemma_code_round_trip(status);
}

/// A text that stands for a status is the wire form of that status: no two
/// texts stand for the same status.
pub proof fn lemma_wire_is_exact(wire: Seq<char>, status: StatusCode)
    requires
        status_of_wire(wire) == Some(status),
    ensures
        wire_of(status) == wire,
{
    lemma_wire_digits(status);
    let code = 10 * (wire[0] as int - 48) + (wire[1] as int - 48);
    lemma_code_is_exact(code, status);
}

/// A well-formed header survives the wire: parsing the line that stands for
/// it gives the header back.
pub proof fn lemma_header_round_trip(header: HeaderView)
    requires
        header.wf(),
    ensures
        parse_header(header.wire()) == Ok::<HeaderView, ErrorView>(header),
{
    let line = header.wire();
    let n = line.len() as int;
    lemma_wire_digits(header.status);
    lemma_wire_round_trip(header.status);
    assert(line.subrange(3, n - 2) == header.meta);
}

/// Nothing of a header line is lost in parsing: a line that parses is the
/// line that stands for the header it parses to, and that header is well
/// formed.
pub proof fn lemma_header_is_exact(line: Seq<char>, header: HeaderView)
    requires
        parse_header(line) == Ok::<HeaderView, ErrorView>(header),
    ensures
        header.wire() == line,
        header.wf(),
{
    lemma_wire_is_exact(line.subrange(0, 2), header.status);
    lemma_wire_digits(header.status);
}

impl StatusCode {
    /// The number of the status, between 10 and 62.
    pub fn code(&self) -> (code: u8)
        ensures
            code == code_of(*self),
    {
        match self {
            StatusCode::Input(InputCode::Input) => 10,
            StatusCode::Input(InputCode::Sensitive) => 11,
            StatusCode::Success => 20,
            StatusCode::Redirect(RedirectCode::Temporary) => 30,
            StatusCode::Redirect(RedirectCode::Permanent) => 31,
            StatusCode::FailTemporary(FailTemporaryCode::Temporary) => 40,
            StatusCode::FailTemporary(FailTemporaryCode::ServerUnavailable) => 41,
            StatusCode::FailTemporary(FailTemporaryCode::CGIError) => 42,
            StatusCode::FailTemporary(FailTemporaryCode::ProxyError) => 43,
            StatusCode::FailTemporary(FailTemporaryCode::SlowDown) => 44,
            StatusCode::FailPermanent(FailPermanentCode::Permanent) => 50,
            StatusCode::FailPermanent(FailPermanentCode::NotFound) => 51,
            StatusCode::FailPermanent(FailPermanentCode::Gone) => 52,
            StatusCode::FailPermanent(FailPermanentCode::ProxyRefused) => 53,
            StatusCode::FailPermanent(FailPermanentCode::BadRequest) => 59,
            StatusCode::CertFail(CertFailCode::CertRequired) => 60,
            StatusCode::CertFail(CertFailCode::CertNotAuthorized) => 61,
            StatusCode::CertFail(CertFailCode::CertNotValid) => 62,
        }
    }

    /// The status that `code` stands for, if any.
    pub fn from_code(code: u8) -> (status: Option<StatusCode>)
        ensures
            status == status_of_code(code as int),
    {
        match code {
            10 => Some(StatusCode::Input(InputCode::Input)),
            11 => Some(StatusCode::Input(InputCode::Sensitive)),
            20 => Some(StatusCode::Success),
            30 => Some(StatusCode::Redirect(RedirectCode::Temporary)),
            31 => Some(StatusCode::Redirect(RedirectCode::Permanent)),
            40 => Some(StatusCode::FailTemporary(FailTemporaryCode::Temporary)),
            41 => Some(StatusCode::FailTemporary(FailTemporaryCode::ServerUnavailable)),
            42 => Some(StatusCode::FailTemporary(FailTemporaryCode::CGIError)),
            43 => Some(StatusCode::FailTemporary(FailTemporaryCode::ProxyError)),
            44 => Some(StatusCode::FailTemporary(FailTemporaryCode::SlowDown)),
            50 => Some(StatusCode::FailPermanent(FailPermanentCode::Permanent)),
            51 => Some(StatusCode::FailPermanent(FailPermanentCode::NotFound)),
            52 => Some(StatusCode::FailPermanent(FailPermanentCode::Gone)),
            53 => Some(StatusCode::FailPermanent(FailPermanentCode::ProxyRefused)),
            59 => Some(StatusCode::FailPermanent(FailPermanentCode::BadRequest)),
            60 => Some(StatusCode::CertFail(CertFailCode::CertRequired)),
            61 => Some(StatusCode::CertFail(CertFailCode::CertNotAuthorized)),
            62 => Some(StatusCode::CertFail(CertFailCode::CertNotValid)),
            _ => None,
        }
    }

    /// Parses the two digits of a status.
    ///
    /// Fails with [`Error::HeaderFormat`] on every text that is not exactly
    /// two digits that spell a number of the table.
    pub fn from_string(input: &str) -> (r: Result<StatusCode, Error>)
        ensures
            view_result(r) == parse_status(input@),
    {
        if input.unicode_len() == 2 {
            let tens: u32 = input.get_char(0) as u32;
            let ones: u32 = input.get_char(1) as u32;
            if 48 <= tens && tens <= 57 && 48 <= ones && ones <= 57 {
                let code: u8 = (10 * (tens - 48) + (ones - 48)) as u8;
                if let Some(status) = StatusCode::from_code(code) {
                    return Ok(status);
                }
            }
        }
        let mut message = String::from_str("Header status code (");
        message.append(input);
        message.append(") was not recognized");
        Err(Error::HeaderFormat(message))
    }

    /// The status as it stands on the wire: its number in two digits.
    pub fn to_string(&self) -> (wire: String)
        ensures
            wire@ == wire_of(*self),
    {
        decimal_string(self.code() as u64)
    }
}

impl Header {
    /// Parses a header line, CR LF included.
    ///
    /// Fails with [`Error::HeaderFormat`] on every line that breaks the
    /// form; nothing is repaired or guessed.
    pub fn try_from(header: String) -> (r: Result<Header, Error>)
        ensures
            view_result(r) == parse_header(header@),
            r matches Ok(parsed) ==> parsed@.wf(),
    {
        let line = header.as_str();
        let n = line.unicode_len();
        if !(n >= 3 && line.get_char(2) == ' ') {
            let mut message = String::from_str("Missing space after status, provided header: ");
            message.append(line);
            return Err(Error::HeaderFormat(message));
        }
        if !(n >= 5 && line.get_char(n - 2) == '\r' && line.get_char(n - 1) == '\n') {
            return Err(
                Error::HeaderFormat(
                    String::from_str("Meta information for the header doesn't end in <CR><LF>"),
                ),
            );
        }
        let meta = line.substring_char(3, n - 2);
        let bytes = meta.as_bytes().len();
        if bytes > MAX_META_BYTES {
            let mut message = String::from_str(
                "The header's meta info was too long, maximum length is 1024 bytes, actual length was ",
            );
            message.append(decimal_string(bytes as u64).as_str());
            message.append(" bytes");
            return Err(Error::HeaderFormat(message));
        }
        match StatusCode::from_string(line.substring_char(0, 2)) {
            Ok(status) => Ok(Header { status, meta: String::from_str(meta) }),
            Err(error) => Err(error),
        }
    }

    /// The header for display: the status, a colon and a space, the meta
    /// string.
    pub fn to_string(&self) -> (text: String)
        ensures
            text@ == wire_of(self.status) + ": "@ + self.meta@,
    {
        let mut text = self.status.to_string();
        text.append(": ");
        text.append(self.meta.as_str());
        text
    }
}

} // verus!
