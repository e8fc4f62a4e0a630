//! The error type shared by every fallible operation of the protocol.

use vstd::prelude::*;

verus! {

/// `url::ParseError`, the reason the `url` crate gives for rejecting a URL.
/// Nothing is known of its contents here; it is only carried to the caller.
#[verifier::external_type_specification]
#[verifier::external_body]
pub struct ExUrlParseError(url::ParseError);

/// `std::io::Error`, as a transport reports it. Nothing is known of its
/// contents here; it is only carried to the caller.
#[verifier::external_type_specification]
#[verifier::external_body]
pub struct ExIoError(std::io::Error);

/// What can go wrong between a URL and a parsed response or document.
#[derive(Debug)]
pub enum Error {
    /// The response header breaks the `<STATUS><SPACE><META><CR><LF>` form.
    HeaderFormat(String),
    /// The URL could not be parsed.
    UrlParse(url::ParseError),
    /// The URL has no host; holds the URL.
    UrlNoHost(String),
    /// Name resolution gave no address; holds `host:port`.
    UrlNoAddress(String),
    /// The TLS client could not be set up; holds the transport's description.
    TLSClient(String),
    /// No connection could be made; holds the last failure and `host:port`.
    TCPConnect(std::io::Error, String),
    /// Sending or reading failed; holds which of the two, and the failure.
    StreamIO(&'static str, std::io::Error),
    /// A line of a gemtext document is malformed.
    GemtextFormat(String),
}

/// [`Error`] with its strings as character sequences.
pub enum ErrorView {
    HeaderFormat(Seq<char>),
    UrlParse(url::ParseError),
    UrlNoHost(Seq<char>),
    UrlNoAddress(Seq<char>),
    TLSClient(Seq<char>),
    TCPConnect(std::io::Error, Seq<char>),
    StreamIO(Seq<char>, std::io::Error),
    GemtextFormat(Seq<char>),
}

impl View for Error {
    type V = ErrorView;

    open spec fn view(&self) -> ErrorView {
        match self {
            Error::HeaderFormat(m) => ErrorView::HeaderFormat(m@),
            Error::UrlParse(e) => ErrorView::UrlParse(*e),
            Error::UrlNoHost(u) => ErrorView::UrlNoHost(u@),
            Error::UrlNoAddress(a) => ErrorView::UrlNoAddress(a@),
            Error::TLSClient(m) => ErrorView::TLSClient(m@),
            Error::TCPConnect(e, a) => ErrorView::TCPConnect(*e, a@),
            Error::StreamIO(what, e) => ErrorView::StreamIO(what@, *e),
            Error::GemtextFormat(m) => ErrorView::GemtextFormat(m@),
        }
    }
}

/// The view of a result whose error is an [`Error`].
pub open spec fn view_result<T: View>(r: Result<T, Error>) -> Result<T::V, ErrorView> {
    match r {
        Ok(value) => Ok(value@),
        Err(error) => Err(error@),
    }
}

} // verus!
