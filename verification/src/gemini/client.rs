//! A request, from the URL to the parsed response, without the network.
//!
//! A [`Client`] holds how to connect. [`Client::request`] turns a URL into an
//! [`Exchange`], which says at every moment what has to be done next
//! ([`Exchange::pending`]) and takes what came of it
//! ([`Exchange::handle`]). The caller resolves names, opens the encrypted
//! stream, writes and reads; the exchange decides what follows from each
//! outcome.
//!
//! The servers of this protocol mostly present certificates that no
//! authority has signed, so a transport is expected to accept any
//! certificate. That is how this protocol is used; it is no advice for any
//! other.

use std::time::Duration;
use vstd::prelude::*;
use vstd::string::*;

use crate::gemini::error::{view_result, Error, ErrorView};
use crate::gemini::response::{parse_response, Response, ResponseView};
use crate::gemini::text::{decimal, decimal_string};

verus! {

/// The port of a URL that names none.
pub const DEFAULT_PORT: u16 = 1965;

/// Whether `url::Url::parse` accepts the text.
pub uninterp spec fn url_parses(url: Seq<char>) -> bool;

/// What `url::Url::host_str` gives for the URL that the text parses to.
pub uninterp spec fn url_host(url: Seq<char>) -> Option<Seq<char>>;

/// What `url::Url::port` gives for the URL that the text parses to.
pub uninterp spec fn url_port(url: Seq<char>) -> Option<u16>;

/// The view of a host that may be missing.
pub open spec fn host_view(host: Option<String>) -> Option<Seq<char>> {
    match host {
        Some(name) => Some(name@),
        None => None,
    }
}

/// The view of what parsing a URL gave: the host and the port, or the
/// reason for rejecting it.
pub open spec fn parts_view(
    parts: Result<(Option<String>, Option<u16>), url::ParseError>,
) -> Result<(Option<Seq<char>>, Option<u16>), url::ParseError> {
    match parts {
        Ok((host, port)) => Ok((host_view(host), port)),
        Err(error) => Err(error),
    }
}

/// Parses a URL with `url::Url::parse` and reads the host and the port of
/// the result with `url::Url::host_str` and `url::Url::port`. The contract
/// only names what the three give; which error a rejected text gets is
/// left open.
#[verifier::external_body]
fn url_host_and_port(url: &str) -> (parts: Result<(Option<String>, Option<u16>), url::ParseError>)
    ensures
        parts is Ok <==> url_parses(url@),
        parts matches Ok((host, _)) ==> host_view(host) == url_host(url@),
        parts matches Ok((_, port)) ==> port == url_port(url@),
{
    let parsed = url::Url::parse(url)?;
    Ok((parsed.host_str().map(String::from), parsed.port()))
}

/// Where an exchange stands: what it waits for.
#[derive(Clone, Copy, Debug, PartialEq, Eq)]
pub enum Phase {
    /// The addresses of the host are being looked up.
    Resolve { timeout: Duration },
    /// A connection to address `index` of `total` is being made.
    Connect { index: usize, total: usize, timeout: Duration },
    /// A connection to the host by its name is being made.
    ConnectHost,
    /// The request is being sent.
    Send,
    /// The response is being read.
    Receive,
}

/// What a transport has to do next.
#[derive(Debug, PartialEq, Eq)]
pub enum Step {
    /// Look up the addresses of `authority`, which is `host:port`.
    Resolve { authority: String },
    /// Connect to the address with this index among those found, within
    /// `timeout`, and open the encrypted stream for `server_name`.
    Connect { index: usize, timeout: Duration, server_name: String },
    /// Connect to `authority` without a limit on time, and open the
    /// encrypted stream for `server_name`.
    ConnectHost { authority: String, server_name: String },
    /// Write all of `request` to the stream.
    Send { request: String },
    /// Read the stream until the server closes it.
    Receive,
}

/// What came of a step.
#[derive(Debug)]
pub enum Event {
    /// The lookup gave this many addresses.
    Resolved(usize),
    /// The lookup failed.
    ResolveFailed(std::io::Error),
    /// The encrypted stream is open.
    Connected,
    /// The connection could not be made.
    ConnectFailed(std::io::Error),
    /// The connection stands, but the encrypted stream could not be set up;
    /// holds the transport's description of the failure.
    TlsFailed(String),
    /// The request has been written.
    Sent,
    /// Writing the request failed.
    SendFailed(std::io::Error),
    /// The server closed the stream after these bytes.
    Received(Vec<u8>),
    /// Reading the response failed.
    ReceiveFailed(std::io::Error),
}

/// A request under way.
#[derive(Debug)]
pub struct Exchange {
    authority: String,
    server_name: String,
    request: String,
    phase: Phase,
}

/// An exchange after an event: under way, or finished with its result.
#[derive(Debug)]
pub enum Outcome {
    Continue(Exchange),
    Finished(Result<Response, Error>),
}

/// How to connect: the longest that making a connection may take, if it is
/// limited.
#[derive(Clone, Copy, Debug, PartialEq, Eq)]
pub struct Client {
    timeout: Option<Duration>,
}

/// [`Step`] with its strings as character sequences.
pub enum StepView {
    Resolve { authority: Seq<char> },
    Connect { index: usize, timeout: Duration, server_name: Seq<char> },
    ConnectHost { authority: Seq<char>, server_name: Seq<char> },
    Send { request: Seq<char> },
    Receive,
}

/// [`Event`] with its bytes as a sequence.
pub enum EventView {
    Resolved(usize),
    ResolveFailed(std::io::Error),
    Connected,
    ConnectFailed(std::io::Error),
    TlsFailed(Seq<char>),
    Sent,
    SendFailed(std::io::Error),
    Received(Seq<u8>),
    ReceiveFailed(std::io::Error),
}

/// An [`Exchange`] as a value: whom it talks to, what it sends, and where it
/// stands.
pub struct ExchangeView {
    /// The host and the port, as `host:port`.
    pub authority: Seq<char>,
    /// The host, for which the encrypted stream is opened.
    pub server_name: Seq<char>,
    /// The request line, CR LF included.
    pub request: Seq<char>,
    pub phase: Phase,
}

/// [`Outcome`] by the views of what it holds.
pub enum OutcomeView {
    Continue(ExchangeView),
    Finished(Result<ResponseView, ErrorView>),
}

/// A [`Client`] as a value.
pub struct ClientView {
    pub timeout: Option<Duration>,
}

impl View for Step {
    type V = StepView;

    open spec fn view(&self) -> StepView {
        match self {
            Step::Resolve { authority } => StepView::Resolve { authority: authority@ },
            Step::Connect { index, timeout, server_name } => StepView::Connect {
                index: *index,
                timeout: *timeout,
                server_name: server_name@,
            },
            Step::ConnectHost { authority, server_name } => StepView::ConnectHost {
                authority: authority@,
                server_name: server_name@,
            },
            Step::Send { request } => StepView::Send { request: request@ },
            Step::Receive => StepView::Receive,
        }
    }
}

impl View for Event {
    type V = EventView;

    open spec fn view(&self) -> EventView {
        match self {
            Event::Resolved(total) => EventView::Resolved(*total),
            Event::ResolveFailed(error) => EventView::ResolveFailed(*error),
            Event::Connected => EventView::Connected,
            Event::ConnectFailed(error) => EventView::ConnectFailed(*error),
            Event::TlsFailed(reason) => EventView::TlsFailed(reason@),
            Event::Sent => EventView::Sent,
            Event::SendFailed(error) => EventView::SendFailed(*error),
            Event::Received(bytes) => EventView::Received(bytes@),
            Event::ReceiveFailed(error) => EventView::ReceiveFailed(*error),
        }
    }
}

impl View for Exchange {
    type V = ExchangeView;

    closed spec fn view(&self) -> ExchangeView {
        ExchangeView {
            authority: self.authority@,
            server_name: self.server_name@,
            request: self.request@,
            phase: self.phase,
        }
    }
}

impl View for Outcome {
    type V = OutcomeView;

    open spec fn view(&self) -> OutcomeView {
        match self {
            Outcome::Continue(exchange) => OutcomeView::Continue(exchange@),
            Outcome::Finished(result) => OutcomeView::Finished(view_result(*result)),
        }
    }
}

impl View for Client {
    type V = ClientView;

    closed spec fn view(&self) -> ClientView {
        ClientView { timeout: self.timeout }
    }
}

/// The line that asks for a URL: the URL, followed by CR LF unless it ends
/// in CR LF already.
pub open spec fn request_line(url: Seq<char>) -> Seq<char> {
    let n = url.len() as int;
    if n >= 2 && url[n - 2] == '\r' && url[n - 1] == '\n' {
        url
    } else {
        url + seq!['\r', '\n']
    }
}

/// A host and a port as `host:port`.
pub open spec fn authority_of(host: Seq<char>, port: u16) -> Seq<char> {
    host + seq![':'] + decimal(port as nat)
}

/// The port that is connected to: the one that the URL names, or 1965.
pub open spec fn port_or_default(port: Option<u16>) -> u16 {
    match port {
        Some(number) => number,
        None => DEFAULT_PORT,
    }
}

/// Where an exchange begins. With a limit on time the addresses of the host
/// are looked up and tried one by one; without, the host is connected to by
/// its name.
pub open spec fn first_phase(timeout: Option<Duration>) -> Phase {
    match timeout {
        Some(limit) => Phase::Resolve { timeout: limit },
        None => Phase::ConnectHost,
    }
}

/// The exchange that a URL begins, given what parsing the URL gave; or the
/// error for a URL that was rejected or names no host. A host without a
/// single character is no host.
pub open spec fn planned(
    client: ClientView,
    url: Seq<char>,
    parts: Result<(Option<Seq<char>>, Option<u16>), url::ParseError>,
) -> Result<ExchangeView, ErrorView> {
    match parts {
        Ok((Some(host), port)) => if host.len() == 0 {
            Err(ErrorView::UrlNoHost(url))
        } else {
            Ok(
                ExchangeView {
                    authority: authority_of(host, port_or_default(port)),
                    server_name: host,
                    request: request_line(url),
                    phase: first_phase(client.timeout),
                },
            )
        },
        Ok((None, _)) => Err(ErrorView::UrlNoHost(url)),
        Err(error) => Err(ErrorView::UrlParse(error)),
    }
}

impl ExchangeView {
    /// The same exchange in another phase.
    pub open spec fn at(self, phase: Phase) -> ExchangeView {
        ExchangeView { phase, ..self }
    }

    /// What the transport has to do in the phase that the exchange is in.
    pub open spec fn pending(self) -> StepView {
        match self.phase {
            Phase::Resolve { timeout } => StepView::Resolve { authority: self.authority },
            Phase::Connect { index, total, timeout } => StepView::Connect {
                index,
                timeout,
                server_name: self.server_name,
            },
            Phase::ConnectHost => StepView::ConnectHost {
                authority: self.authority,
                server_name: self.server_name,
            },
            Phase::Send => StepView::Send { request: self.request },
            Phase::Receive => StepView::Receive,
        }
    }

    /// The exchange after an event.
    ///
    /// A lookup that fails, or finds nothing, ends the exchange. The
    /// addresses are tried in order: a failure to connect moves on to the
    /// next one, and the failure at the last one ends the exchange. Once a
    /// connection stands nothing is tried again: a failure to set up the
    /// encrypted stream, to send or to read ends the exchange, and so do the
    /// bytes read, with what they parse to. An event that does not answer
    /// the pending step changes nothing.
    pub open spec fn next(self, event: EventView) -> OutcomeView {
        match (self.phase, event) {
            (Phase::Resolve { timeout }, EventView::Resolved(total)) => if total == 0 {
                OutcomeView::Finished(Err(ErrorView::UrlNoAddress(self.authority)))
            } else {
                OutcomeView::Continue(self.at(Phase::Connect { index: 0, total, timeout }))
            },
            (Phase::Resolve { timeout }, EventView::ResolveFailed(error)) => OutcomeView::Finished(
                Err(ErrorView::TCPConnect(error, self.authority)),
            ),
            (Phase::Connect { index, total, timeout }, EventView::Connected) => {
                OutcomeView::Continue(self.at(Phase::Send))
            },
            (Phase::Connect { index, total, timeout }, EventView::ConnectFailed(error)) => if index
                + 1 < total {
                OutcomeView::Continue(
                    self.at(Phase::Connect { index: (index + 1) as usize, total, timeout }),
                )
            } else {
                OutcomeView::Finished(Err(ErrorView::TCPConnect(error, self.authority)))
            },
            (Phase::Connect { index, total, timeout }, EventView::TlsFailed(reason)) => {
                OutcomeView::Finished(Err(ErrorView::TLSClient(reason)))
            },
            (Phase::ConnectHost, EventView::Connected) => OutcomeView::Continue(
                self.at(Phase::Send),
            ),
            (Phase::ConnectHost, EventView::ConnectFailed(error)) => OutcomeView::Finished(
                Err(ErrorView::TCPConnect(error, self.authority)),
            ),
            (Phase::ConnectHost, EventView::TlsFailed(reason)) => OutcomeView::Finished(
                Err(ErrorView::TLSClient(reason)),
            ),
            (Phase::Send, EventView::Sent) => OutcomeView::Continue(self.at(Phase::Receive)),
            (Phase::Send, EventView::SendFailed(error)) => OutcomeView::Finished(
                Err(ErrorView::StreamIO("send"@, error)),
            ),
            (Phase::Receive, EventView::Received(bytes)) => OutcomeView::Finished(
                parse_response(bytes),
            ),
            (Phase::Receive, EventView::ReceiveFailed(error)) => OutcomeView::Finished(
                Err(ErrorView::StreamIO("read"@, error)),
            ),
            _ => OutcomeView::Continue(self),
        }
    }
}

impl ExchangeView {
    /// While addresses are tried, the one in turn is one of those found.
    pub open spec fn wf(self) -> bool {
        self.phase matches Phase::Connect { index, total, timeout } ==> index < total
    }

    /// Whether an event answers the pending step.
    pub open spec fn answers(self, event: EventView) -> bool {
        match self.phase {
            Phase::Resolve { timeout } => event is Resolved || event is ResolveFailed,
            Phase::Connect { index, total, timeout } => event is Connected || event
                is ConnectFailed || event is TlsFailed,
            Phase::ConnectHost => event is Connected || event is ConnectFailed || event
                is TlsFailed,
            Phase::Send => event is Sent || event is SendFailed,
            Phase::Receive => event is Received || event is ReceiveFailed,
        }
    }

    /// How far the exchange is from reading the response, in phases.
    pub open spec fn phases_left(self) -> int {
        match self.phase {
            Phase::Resolve { timeout } => 3,
            Phase::Connect { index, total, timeout } => 2,
            Phase::ConnectHost => 2,
            Phase::Send => 1,
            Phase::Receive => 0,
        }
    }

    /// How many addresses are left to try, the one in turn included.
    pub open spec fn addresses_left(self) -> int {
        match self.phase {
            Phase::Connect { index, total, timeout } => total - index,
            _ => 0,
        }
    }
}

/// Every answer brings an exchange closer to its end: it ends the exchange,
/// or moves it to a later phase, or on to the next address with one fewer
/// left to try. So an exchange ends after finitely many answers, and an
/// event that is no answer leaves it as it is.
pub proof fn lemma_exchange_progress(exchange: ExchangeView, event: EventView)
    requires
        exchange.wf(),
    ensures
        !exchange.answers(event) ==> exchange.next(event) == OutcomeView::Continue(exchange),
        exchange.next(event) matches OutcomeView::Continue(after) ==> after.wf(),
        exchange.answers(event) ==> (exchange.next(event) matches OutcomeView::Continue(after) ==> {
            ||| after.phases_left() < exchange.phases_left()
            ||| after.phases_left() == exchange.phases_left() && 0 < after.addresses_left()
                < exchange.addresses_left()
        }),
{
}

/// Whether the stream of an exchange stands: the request is being sent or
/// the response read.
pub open spec fn is_connected(phase: Phase) -> bool {
    phase is Send || phase is Receive
}

/// Once the stream stands nothing is tried again: whatever happens, the
/// exchange ends or goes on with the same stream, and a failure of the
/// stream ends it.
pub proof fn lemma_no_retry_once_connected(exchange: ExchangeView, event: EventView)
    requires
        is_connected(exchange.phase),
    ensures
        exchange.next(event) matches OutcomeView::Continue(after) ==> is_connected(after.phase),
        event is SendFailed && exchange.phase is Send ==> exchange.next(event) is Finished,
        event is ReceiveFailed && exchange.phase is Receive ==> exchange.next(event) is Finished,
{
}

/// A request line ends in CR LF, and in no more of them than the URL did.
pub proof fn lemma_request_line_ends(url: Seq<char>)
    ensures
        ({
            let line = request_line(url);
            let n = line.len() as int;
            &&& n >= 2
            &&& line[n - 2] == '\r'
            &&& line[n - 1] == '\n'
            &&& line == url || line == url + seq!['\r', '\n']
            &&& request_line(line) == line
        }),
{
}

/// The line that asks for a URL.
pub fn request_line_of(url: String) -> (line: String)
    ensures
        line@ == request_line(url@),
{
    let n = url.as_str().unicode_len();
    if n >= 2 && url.as_str().get_char(n - 2) == '\r' && url.as_str().get_char(n - 1) == '\n' {
        url
    } else {
        let mut line = url;
        line.push('\r');
        line.push('\n');
        line
    }
}

impl Exchange {
    /// What the transport has to do next.
    pub fn pending(&self) -> (step: Step)
        ensures
            step@ == self@.pending(),
    {
        match self.phase {
            Phase::Resolve { timeout: _ } => Step::Resolve { authority: self.authority.clone() },
            Phase::Connect { index, total: _, timeout } => Step::Connect {
                index,
                timeout,
                server_name: self.server_name.clone(),
            },
            Phase::ConnectHost => Step::ConnectHost {
                authority: self.authority.clone(),
                server_name: self.server_name.clone(),
            },
            Phase::Send => Step::Send { request: self.request.clone() },
            Phase::Receive => Step::Receive,
        }
    }

    /// Takes what came of the pending step and moves on.
    pub fn handle(self, event: Event) -> (outcome: Outcome)
        ensures
            outcome@ == self@.next(event@),
            self@.wf() ==> (outcome matches Outcome::Continue(after) ==> after@.wf()),
            outcome matches Outcome::Finished(Ok(response)) ==> response@.wf(),
    {
        match (self.phase, event) {
            (Phase::Resolve { timeout }, Event::Resolved(total)) => {
                if total == 0 {
                    Outcome::Finished(Err(Error::UrlNoAddress(self.authority)))
                } else {
                    Outcome::Continue(
                        Exchange { phase: Phase::Connect { index: 0, total, timeout }, ..self },
                    )
                }
            },
            (Phase::Resolve { timeout: _ }, Event::ResolveFailed(error)) => Outcome::Finished(
                Err(Error::TCPConnect(error, self.authority)),
            ),
            (Phase::Connect { index: _, total: _, timeout: _ }, Event::Connected) => {
                Outcome::Continue(Exchange { phase: Phase::Send, ..self })
            },
            (Phase::Connect { index, total, timeout }, Event::ConnectFailed(error)) => {
                if total > 0 && index < total - 1 {
                    Outcome::Continue(
                        Exchange {
                            phase: Phase::Connect { index: index + 1, total, timeout },
                            ..self
                        },
                    )
                } else {
                    Outcome::Finished(Err(Error::TCPConnect(error, self.authority)))
                }
            },
            (Phase::Connect { index: _, total: _, timeout: _ }, Event::TlsFailed(reason)) => {
                Outcome::Finished(Err(Error::TLSClient(reason)))
            },
            (Phase::ConnectHost, Event::Connected) => Outcome::Continue(
                Exchange { phase: Phase::Send, ..self },
            ),
            (Phase::ConnectHost, Event::ConnectFailed(error)) => Outcome::Finished(
                Err(Error::TCPConnect(error, self.authority)),
            ),
            (Phase::ConnectHost, Event::TlsFailed(reason)) => Outcome::Finished(
                Err(Error::TLSClient(reason)),
            ),
            (Phase::Send, Event::Sent) => Outcome::Continue(
                Exchange { phase: Phase::Receive, ..self },
            ),
            (Phase::Send, Event::SendFailed(error)) => Outcome::Finished(
                Err(Error::StreamIO("send", error)),
            ),
            (Phase::Receive, Event::Received(bytes)) => Outcome::Finished(
                Response::from_bytes(bytes.as_slice()),
            ),
            (Phase::Receive, Event::ReceiveFailed(error)) => Outcome::Finished(
                Err(Error::StreamIO("read", error)),
            ),
            (_, _) => Outcome::Continue(self),
        }
    }
}

impl Client {
    /// A client that puts no limit on the time that connecting takes.
    pub fn new() -> (r: Result<Client, Error>)
        ensures
            r matches Ok(client) && client@.timeout is None,
    {
        Client::with_timeout(None)
    }

    /// A client that gives up on an address when connecting to it takes
    /// longer than `timeout`; with `None`, a client without such a limit.
    pub fn with_timeout(timeout: Option<Duration>) -> (r: Result<Client, Error>)
        ensures
            r matches Ok(client) && client@.timeout == timeout,
    {
        Ok(Client { timeout })
    }

    /// Sets the limit on the time that connecting takes, or lifts it.
    pub fn set_timeout(&mut self, timeout: Option<Duration>)
        ensures
            final(self)@.timeout == timeout,
    {
        self.timeout = timeout;
    }

    /// The limit on the time that connecting takes.
    pub fn timeout(&self) -> (timeout: Option<Duration>)
        ensures
            timeout == self@.timeout,
    {
        self.timeout
    }

    /// Begins the request for `url`, given what parsing the URL gave: its
    /// host and its port, or the reason for rejecting it.
    ///
    /// Fails with [`Error::UrlParse`] for a URL that was rejected, and with
    /// [`Error::UrlNoHost`] for one without a host or with an empty one.
    pub fn plan(
        &self,
        url: String,
        parts: Result<(Option<String>, Option<u16>), url::ParseError>,
    ) -> (r: Result<Exchange, Error>)
        ensures
            view_result(r) == planned(self@, url@, parts_view(parts)),
            r matches Ok(exchange) ==> exchange@.wf(),
    {
        match parts {
            Ok((Some(host), port)) => {
                if host.as_str().is_empty() {
                    return Err(Error::UrlNoHost(url));
                }
                let port = match port {
                    Some(number) => number,
                    None => DEFAULT_PORT,
                };
                let mut authority = host.clone();
                authority.push(':');
                authority.append(decimal_string(port as u64).as_str());
                assert(authority@ == authority_of(host@, port));
                let phase = match self.timeout {
                    Some(limit) => Phase::Resolve { timeout: limit },
                    None => Phase::ConnectHost,
                };
                Ok(Exchange { authority, server_name: host, request: request_line_of(url), phase })
            },
            Ok((None, _)) => Err(Error::UrlNoHost(url)),
            Err(error) => Err(Error::UrlParse(error)),
        }
    }

    /// Begins the request for `url`: finds out whom to talk to and what to
    /// send, and hands back the exchange for a transport to carry out.
    /// Nothing is sent here.
    ///
    /// Fails with [`Error::UrlParse`] for a text that is no URL, and with
    /// [`Error::UrlNoHost`] for a URL without a host or with an empty one.
    pub fn request(&self, url: String) -> (r: Result<Exchange, Error>)
        ensures
            url_parses(url@) ==> view_result(r) == planned(
                self@,
                url@,
                Ok((url_host(url@), url_port(url@))),
            ),
            !url_parses(url@) ==> r matches Err(Error::UrlParse(_)),
            r matches Ok(exchange) ==> exchange@.wf(),
    {
        let parts = url_host_and_port(url.as_str());
        self.plan(url, parts)
    }
}

} // verus!
