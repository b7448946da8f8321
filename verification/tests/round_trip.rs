use request_executor::request::{prepare, HeaderEntry, PreparedRequest, RequestDescription};
use request_executor::response::{complete, TransportReply};

/// A client that answers every request with the request's own headers and
/// body, and counts how often it is asked.
struct Echo {
    calls: usize,
}

impl Echo {
    fn send(&mut self, request: PreparedRequest) -> TransportReply {
        self.calls += 1;
        let mut headers = request.headers.clone();
        headers.insert("x-method", request.method.as_str().parse().expect("a header value"));
        TransportReply::Received { status: 200, headers, body: Ok(request.body.unwrap_or_default()) }
    }
}

fn echo_request(method: &str) -> RequestDescription {
    RequestDescription {
        url: "http://test/echo".to_string(),
        method: method.to_string(),
        headers: vec![HeaderEntry { name: "X-A".to_string(), value: "1".to_string() }],
        body: "payload".to_string(),
    }
}

fn header<'a>(entries: &'a [HeaderEntry], name: &str) -> Option<&'a str> {
    entries.iter().find(|e| e.name == name).map(|e| e.value.as_str())
}

#[test]
fn echoed_request_comes_back_as_sent() {
    let mut echo = Echo { calls: 0 };
    let prepared = prepare(echo_request("POST")).expect("a valid request");
    let reply = echo.send(prepared);
    let response = complete(reply, 5).expect("a response");
    assert_eq!(echo.calls, 1);
    assert_eq!(response.status, 200);
    assert_eq!(response.time_ms, 5);
    assert_eq!(response.body, "payload");
    assert_eq!(header(&response.headers, "x-a"), Some("1"));
    assert_eq!(header(&response.headers, "x-method"), Some("POST"));
    assert_eq!(response.headers.len(), 2);
}

#[test]
fn invalid_method_never_reaches_the_client() {
    let mut echo = Echo { calls: 0 };
    let outcome = match prepare(echo_request("G E T")) {
        Ok(prepared) => complete(echo.send(prepared), 0),
        Err(e) => Err(e),
    };
    assert_eq!(echo.calls, 0);
    assert_eq!(outcome.err().map(|e| e.into_message()), Some("invalid HTTP method".to_string()));
}

#[test]
fn echoed_request_without_a_body_has_an_empty_body() {
    let mut echo = Echo { calls: 0 };
    let mut request = echo_request("GET");
    request.body = String::new();
    let prepared = prepare(request).expect("a valid request");
    assert!(prepared.body.is_none());
    let response = complete(echo.send(prepared), 1).expect("a response");
    assert_eq!(response.body, "");
    assert_eq!(header(&response.headers, "x-method"), Some("GET"));
}
