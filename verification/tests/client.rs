use leda::gemini::client::{Client, Event, Exchange, Outcome, Step, DEFAULT_PORT};
use leda::gemini::gemtext::Gemtext;
use leda::gemini::header::StatusCode;
use leda::gemini::Error;
use std::io;
use std::time::Duration;

const URL: &str = "gemini://gemini.circumlunar.space/";

fn failure(text: &str) -> io::Error {
    io::Error::new(io::ErrorKind::Other, text.to_string())
}

fn begin(client: &Client, url: &str) -> Exchange {
    client.request(url.to_string()).expect("the URL is accepted")
}

fn go_on(exchange: Exchange, event: Event) -> Exchange {
    match exchange.handle(event) {
        Outcome::Continue(next) => next,
        Outcome::Finished(result) => panic!("the exchange ended: {:?}", result),
    }
}

fn finish(exchange: Exchange, event: Event) -> Result<leda::gemini::Response, Error> {
    match exchange.handle(event) {
        Outcome::Continue(next) => panic!("the exchange goes on: {:?}", next),
        Outcome::Finished(result) => result,
    }
}

fn connect_host() -> Step {
    Step::ConnectHost {
        authority: "gemini.circumlunar.space:1965".to_string(),
        server_name: "gemini.circumlunar.space".to_string(),
    }
}

fn connect(index: usize, seconds: u64) -> Step {
    Step::Connect {
        index,
        timeout: Duration::from_secs(seconds),
        server_name: "gemini.circumlunar.space".to_string(),
    }
}

/// Plays the transport: hands the exchange one event after the other.
fn play(mut exchange: Exchange, events: Vec<Event>) -> Result<leda::gemini::Response, Error> {
    for event in events {
        match exchange.handle(event) {
            Outcome::Continue(next) => exchange = next,
            Outcome::Finished(result) => return result,
        }
    }
    panic!("the exchange did not end: {:?}", exchange);
}

#[test]
fn request_test() {
    let url = String::from("gemini://gemini.circumlunar.space/");

    let client =
        Client::with_timeout(Some(Duration::from_secs(5))).expect("Failed to create gemini client");

    let page = b"20 text/gemini\r\n# Project Gemini\n\n=> docs/ Documentation\n* fast\n* simple\n";
    let exchange = client.request(url).expect("Failed to retrieve gemini page");
    let response = play(
        exchange,
        vec![Event::Resolved(1), Event::Connected, Event::Sent, Event::Received(page.to_vec())],
    )
    .expect("Failed to retrieve gemini page");

    // Check that the server responded successfully with a gemtext document
    let body = if let StatusCode::Success = response.header.status {
        if !response.header.meta.starts_with("text/gemini") {
            panic!("The server didn't respond with a gemtext document when we expected it to");
        }
        response.body.as_ref().unwrap()
    } else {
        panic!("Page requested didn't return a body!");
    };

    let body = std::str::from_utf8(body).expect("Failed to parse body as utf8");
    assert!(Gemtext::new(body).is_ok());
    println!("body:\n{}\n", body);
}

#[test]
fn client_holds_its_timeout() {
    assert_eq!(Client::new().unwrap().timeout(), None);
    let five = Some(Duration::from_secs(5));
    let mut client = Client::with_timeout(five).unwrap();
    assert_eq!(client.timeout(), five);
    client.set_timeout(None);
    assert_eq!(client.timeout(), None);
    client.set_timeout(Some(Duration::from_millis(250)));
    assert_eq!(client.timeout(), Some(Duration::from_millis(250)));
    assert_eq!(Client::with_timeout(None).unwrap(), Client::new().unwrap());
}

#[test]
fn default_port_is_1965() {
    assert_eq!(DEFAULT_PORT, 1965);
    let exchange = begin(&Client::new().unwrap(), "gemini://example.org/x");
    assert_eq!(
        exchange.pending(),
        Step::ConnectHost {
            authority: "example.org:1965".to_string(),
            server_name: "example.org".to_string(),
        }
    );
}

#[test]
fn port_of_the_url_is_used() {
    let exchange = begin(&Client::new().unwrap(), "gemini://example.org:7000/x");
    assert_eq!(
        exchange.pending(),
        Step::ConnectHost {
            authority: "example.org:7000".to_string(),
            server_name: "example.org".to_string(),
        }
    );
    let exchange = begin(&Client::new().unwrap(), "gemini://example.org:1/");
    assert_eq!(
        exchange.pending(),
        Step::ConnectHost {
            authority: "example.org:1".to_string(),
            server_name: "example.org".to_string(),
        }
    );
    let exchange = begin(&Client::new().unwrap(), "gemini://example.org:65535/");
    assert_eq!(
        exchange.pending(),
        Step::ConnectHost {
            authority: "example.org:65535".to_string(),
            server_name: "example.org".to_string(),
        }
    );
}

#[test]
fn text_that_is_no_url_is_refused() {
    let client = Client::new().unwrap();
    for url in ["", "no scheme", "//example.org/", "gemini://exa mple.org/", "gemini://[::1/"] {
        assert!(
            matches!(client.request(url.to_string()), Err(Error::UrlParse(_))),
            "{:?}",
            url
        );
    }
    assert!(matches!(
        client.request("gemini://example.org:99999/".to_string()),
        Err(Error::UrlParse(url::ParseError::InvalidPort))
    ));
}

#[test]
fn url_without_host_is_refused() {
    let client = Client::new().unwrap();
    for url in ["mailto:someone@example.org", "data:text/plain,x", "unix:/run/socket", "gemini://"] {
        match client.request(url.to_string()) {
            Err(Error::UrlNoHost(given)) => assert_eq!(given, url),
            other => panic!("expected a missing host for {:?}, got {:?}", url, other),
        }
    }
}

#[test]
fn plan_follows_the_parts_given() {
    let client = Client::new().unwrap();
    let exchange = client
        .plan(URL.to_string(), Ok((Some("other.example".to_string()), Some(300))))
        .unwrap();
    assert_eq!(
        exchange.pending(),
        Step::ConnectHost {
            authority: "other.example:300".to_string(),
            server_name: "other.example".to_string(),
        }
    );
    let exchange = client.plan(URL.to_string(), Ok((Some("h".to_string()), None))).unwrap();
    assert_eq!(
        exchange.pending(),
        Step::ConnectHost { authority: "h:1965".to_string(), server_name: "h".to_string() }
    );
    match client.plan(URL.to_string(), Ok((None, Some(300)))) {
        Err(Error::UrlNoHost(given)) => assert_eq!(given, URL),
        other => panic!("expected a missing host, got {:?}", other),
    }
    match client.plan(URL.to_string(), Ok((Some(String::new()), Some(300)))) {
        Err(Error::UrlNoHost(given)) => assert_eq!(given, URL),
        other => panic!("expected a missing host, got {:?}", other),
    }
    assert!(matches!(
        client.plan(URL.to_string(), Err(url::ParseError::EmptyHost)),
        Err(Error::UrlParse(url::ParseError::EmptyHost))
    ));
}

#[test]
fn request_line_ends_in_one_line_end() {
    let client = Client::new().unwrap();
    let exchange = go_on(begin(&client, URL), Event::Connected);
    assert_eq!(
        exchange.pending(),
        Step::Send { request: "gemini://gemini.circumlunar.space/\r\n".to_string() }
    );
    let exchange = client
        .plan("gemini://h/\r\n".to_string(), Ok((Some("h".to_string()), None)))
        .unwrap();
    let exchange = go_on(exchange, Event::Connected);
    assert_eq!(exchange.pending(), Step::Send { request: "gemini://h/\r\n".to_string() });
    let exchange = client
        .plan("gemini://h/\n".to_string(), Ok((Some("h".to_string()), None)))
        .unwrap();
    let exchange = go_on(exchange, Event::Connected);
    assert_eq!(exchange.pending(), Step::Send { request: "gemini://h/\n\r\n".to_string() });
}

#[test]
fn request_without_timeout() {
    let client = Client::new().unwrap();
    let exchange = begin(&client, URL);
    assert_eq!(exchange.pending(), connect_host());
    let exchange = go_on(exchange, Event::Connected);
    assert_eq!(
        exchange.pending(),
        Step::Send { request: "gemini://gemini.circumlunar.space/\r\n".to_string() }
    );
    let exchange = go_on(exchange, Event::Sent);
    assert_eq!(exchange.pending(), Step::Receive);
    let response = finish(exchange, Event::Received(b"20 text/gemini\r\n# hi\n".to_vec())).unwrap();
    assert_eq!(response.header.status, StatusCode::Success);
    assert_eq!(response.header.meta, "text/gemini");
    assert_eq!(response.body, Some(b"# hi\n".to_vec()));
}

#[test]
fn request_with_timeout() {
    let client = Client::with_timeout(Some(Duration::from_secs(5))).unwrap();
    let exchange = begin(&client, URL);
    assert_eq!(
        exchange.pending(),
        Step::Resolve { authority: "gemini.circumlunar.space:1965".to_string() }
    );
    let exchange = go_on(exchange, Event::Resolved(2));
    assert_eq!(exchange.pending(), connect(0, 5));
    let exchange = go_on(exchange, Event::Connected);
    let exchange = go_on(exchange, Event::Sent);
    let response = finish(exchange, Event::Received(b"51 gone missing\r\n".to_vec())).unwrap();
    assert_eq!(response.header.meta, "gone missing");
    assert_eq!(response.body, None);
}

#[test]
fn addresses_are_tried_in_order() {
    let client = Client::with_timeout(Some(Duration::from_secs(3))).unwrap();
    let exchange = go_on(begin(&client, URL), Event::Resolved(3));
    assert_eq!(exchange.pending(), connect(0, 3));
    let exchange = go_on(exchange, Event::ConnectFailed(failure("first")));
    assert_eq!(exchange.pending(), connect(1, 3));
    let exchange = go_on(exchange, Event::ConnectFailed(failure("second")));
    assert_eq!(exchange.pending(), connect(2, 3));
    let exchange = go_on(exchange, Event::Connected);
    assert!(matches!(exchange.pending(), Step::Send { .. }));
}

#[test]
fn last_connect_failure_is_reported() {
    let client = Client::with_timeout(Some(Duration::from_secs(3))).unwrap();
    let exchange = go_on(begin(&client, URL), Event::Resolved(2));
    let exchange = go_on(exchange, Event::ConnectFailed(failure("first")));
    match finish(exchange, Event::ConnectFailed(failure("second"))) {
        Err(Error::TCPConnect(error, authority)) => {
            assert_eq!(error.to_string(), "second");
            assert_eq!(authority, "gemini.circumlunar.space:1965");
        },
        other => panic!("expected a connect error, got {:?}", other),
    }
    let exchange = go_on(begin(&client, URL), Event::Resolved(1));
    assert!(matches!(
        finish(exchange, Event::ConnectFailed(failure("only"))),
        Err(Error::TCPConnect(_, _))
    ));
}

#[test]
fn connect_by_name_is_tried_once() {
    let exchange = begin(&Client::new().unwrap(), URL);
    match finish(exchange, Event::ConnectFailed(failure("refused"))) {
        Err(Error::TCPConnect(error, authority)) => {
            assert_eq!(error.to_string(), "refused");
            assert_eq!(authority, "gemini.circumlunar.space:1965");
        },
        other => panic!("expected a connect error, got {:?}", other),
    }
}

#[test]
fn lookup_without_addresses_fails() {
    let client = Client::with_timeout(Some(Duration::from_secs(3))).unwrap();
    match finish(begin(&client, URL), Event::Resolved(0)) {
        Err(Error::UrlNoAddress(authority)) => {
            assert_eq!(authority, "gemini.circumlunar.space:1965")
        },
        other => panic!("expected no address, got {:?}", other),
    }
}

#[test]
fn failed_lookup_is_a_connect_error() {
    let client = Client::with_timeout(Some(Duration::from_secs(3))).unwrap();
    match finish(begin(&client, URL), Event::ResolveFailed(failure("no such host"))) {
        Err(Error::TCPConnect(error, authority)) => {
            assert_eq!(error.to_string(), "no such host");
            assert_eq!(authority, "gemini.circumlunar.space:1965");
        },
        other => panic!("expected a connect error, got {:?}", other),
    }
}

#[test]
fn stream_failures_say_what_failed() {
    let client = Client::new().unwrap();
    let exchange = go_on(begin(&client, URL), Event::Connected);
    match finish(exchange, Event::SendFailed(failure("broken pipe"))) {
        Err(Error::StreamIO(what, error)) => {
            assert_eq!(what, "send");
            assert_eq!(error.to_string(), "broken pipe");
        },
        other => panic!("expected a stream error, got {:?}", other),
    }
    let exchange = go_on(go_on(begin(&client, URL), Event::Connected), Event::Sent);
    match finish(exchange, Event::ReceiveFailed(failure("reset"))) {
        Err(Error::StreamIO(what, error)) => {
            assert_eq!(what, "read");
            assert_eq!(error.to_string(), "reset");
        },
        other => panic!("expected a stream error, got {:?}", other),
    }
}

#[test]
fn failed_tls_setup_ends_the_exchange() {
    let exchange = begin(&Client::new().unwrap(), URL);
    match finish(exchange, Event::TlsFailed("invalid dns name".to_string())) {
        Err(Error::TLSClient(reason)) => assert_eq!(reason, "invalid dns name"),
        other => panic!("expected a TLS error, got {:?}", other),
    }
    let client = Client::with_timeout(Some(Duration::from_secs(3))).unwrap();
    let exchange = go_on(begin(&client, URL), Event::Resolved(3));
    match finish(exchange, Event::TlsFailed("handshake".to_string())) {
        Err(Error::TLSClient(reason)) => assert_eq!(reason, "handshake"),
        other => panic!("expected a TLS error, got {:?}", other),
    }
    let exchange = go_on(begin(&client, URL), Event::TlsFailed("too early".to_string()));
    assert!(matches!(exchange.pending(), Step::Resolve { .. }));
}

#[test]
fn bad_response_ends_the_exchange() {
    let client = Client::new().unwrap();
    let exchange = go_on(go_on(begin(&client, URL), Event::Connected), Event::Sent);
    assert!(matches!(
        finish(exchange, Event::Received(b"20 no line end".to_vec())),
        Err(Error::HeaderFormat(_))
    ));
    let exchange = go_on(go_on(begin(&client, URL), Event::Connected), Event::Sent);
    assert!(matches!(
        finish(exchange, Event::Received(Vec::new())),
        Err(Error::HeaderFormat(_))
    ));
}

#[test]
fn events_that_answer_nothing_are_ignored() {
    let client = Client::new().unwrap();
    let exchange = begin(&client, URL);
    let exchange = go_on(exchange, Event::Sent);
    assert_eq!(exchange.pending(), connect_host());
    let exchange = go_on(exchange, Event::Resolved(4));
    assert_eq!(exchange.pending(), connect_host());
    let exchange = go_on(exchange, Event::Received(b"20 x\r\n".to_vec()));
    assert_eq!(exchange.pending(), connect_host());
    let exchange = go_on(exchange, Event::SendFailed(failure("early")));
    assert_eq!(exchange.pending(), connect_host());

    let exchange = go_on(exchange, Event::Connected);
    let exchange = go_on(exchange, Event::Connected);
    assert!(matches!(exchange.pending(), Step::Send { .. }));
    let exchange = go_on(exchange, Event::ConnectFailed(failure("late")));
    assert!(matches!(exchange.pending(), Step::Send { .. }));

    let exchange = go_on(exchange, Event::Sent);
    let exchange = go_on(exchange, Event::Sent);
    assert_eq!(exchange.pending(), Step::Receive);

    let timed = Client::with_timeout(Some(Duration::from_secs(1))).unwrap();
    let exchange = go_on(begin(&timed, URL), Event::Connected);
    assert!(matches!(exchange.pending(), Step::Resolve { .. }));
}
