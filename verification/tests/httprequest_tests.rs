use httpserver::headers::Headers;
use httpserver::httprequest::{
    process_header_line, process_request_line, HttpRequest, Method, Resource, Version,
};

fn table(pairs: &[(&str, &str)]) -> Headers {
    let mut headers = Headers::new();
    for (name, value) in pairs {
        headers.insert(name.to_string(), value.to_string());
    }
    headers
}

#[test]
fn test_method_into() {
    let method: Method = "GET".into();
    assert_eq!(method, Method::Get)
}

#[test]
fn test_version_into() {
    let method: Version = "HTTP/1.1".into();
    assert_eq!(method, Version::V1_1)
}

#[test]
fn test_read_http() {
    let request = String::from("GET /greeting HTTP/1.1\r\nHost: localhost\r\nAccept: */*\r\nUser-Agent: curl/7.71.1\r\n\r\nSample.");

    let mut headers_expected = Headers::new();

    headers_expected.insert("Host".into(), "localhost".into());
    headers_expected.insert("Accept".into(), "*/*".into());
    headers_expected.insert("User-Agent".into(), "curl/7.71.1".into());

    let request: HttpRequest = request.into();

    assert_eq!(Method::Get, request.method);
    assert_eq!(Version::V1_1, request.version);
    assert_eq!(Resource::Path("/greeting".to_string()), request.resource);
    assert_eq!(headers_expected, request.headers);
}

#[test]
fn read_http_keeps_the_body() {
    let request: HttpRequest = String::from(
        "GET /greeting HTTP/1.1\r\nHost: localhost\r\nAccept: */*\r\nUser-Agent: curl/7.71.1\r\n\r\nSample.",
    )
    .into();
    assert_eq!(request.message_body, "Sample.");
    assert_eq!(request.headers.len(), 3);
    assert_eq!(request.headers.get("Host"), Some("localhost"));
    assert_eq!(request.headers.get("Accept"), Some("*/*"));
    assert_eq!(request.headers.get("User-Agent"), Some("curl/7.71.1"));
    assert_eq!(request.headers.get("Missing"), None);
}

#[test]
fn method_from_other_tokens() {
    assert_eq!(Method::from("POST"), Method::Post);
    assert_eq!(Method::from("get"), Method::Uninitialized);
    assert_eq!(Method::from("PUT"), Method::Uninitialized);
    assert_eq!(Method::from(""), Method::Uninitialized);
    assert_eq!(Method::from("GET "), Method::Uninitialized);
}

#[test]
fn version_from_other_tokens() {
    assert_eq!(Version::from("HTTP/2.0"), Version::Uninitialized);
    assert_eq!(Version::from("http/1.1"), Version::Uninitialized);
    assert_eq!(Version::from(""), Version::Uninitialized);
}

#[test]
fn empty_text_gives_the_blank_request() {
    let request = HttpRequest::from(String::new());
    assert_eq!(request.method, Method::Uninitialized);
    assert_eq!(request.version, Version::V1_1);
    assert_eq!(request.resource, Resource::Path(String::new()));
    assert_eq!(request.headers, Headers::new());
    assert_eq!(request.message_body, "");
}

#[test]
fn request_line_with_missing_words() {
    let request = HttpRequest::from(String::from("HTTP"));
    assert_eq!(request.method, Method::Uninitialized);
    assert_eq!(request.resource, Resource::Path(String::new()));
    assert_eq!(request.version, Version::Uninitialized);

    let (method, resource, version) = process_request_line("POST   /submit/HTTP");
    assert_eq!(method, Method::Post);
    assert_eq!(resource, Resource::Path("/submit/HTTP".to_string()));
    assert_eq!(version, Version::Uninitialized);
}

#[test]
fn request_line_splits_on_any_white_space() {
    let (method, resource, version) = process_request_line("\tGET\u{3000}/a/b \u{a0} HTTP/1.1  extra");
    assert_eq!(method, Method::Get);
    assert_eq!(resource, Resource::Path("/a/b".to_string()));
    assert_eq!(version, Version::V1_1);
}

#[test]
fn later_header_overwrites_earlier() {
    let request = HttpRequest::from(String::from(
        "GET / HTTP/1.1\nHost: first\nAccept: */*\nHost: second\n",
    ));
    assert_eq!(request.headers, table(&[("Host", "second"), ("Accept", "*/*")]));
    assert_eq!(request.headers.entry(0), ("Host", "second"));
    assert_eq!(request.headers.entry(1), ("Accept", "*/*"));
}

#[test]
fn header_splits_on_first_colon_only() {
    let (name, value) = process_header_line("Host:  localhost:8000 ");
    assert_eq!(name, "Host");
    assert_eq!(value, "localhost:8000");
    let (name, value) = process_header_line("  X-Empty :");
    assert_eq!(name, "X-Empty");
    assert_eq!(value, "");
    let (name, value) = process_header_line("no colon here");
    assert_eq!(name, "no colon here");
    assert_eq!(value, "");
}

#[test]
fn last_body_line_wins() {
    let request = HttpRequest::from(String::from(
        "POST /x HTTP/1.1\r\nA: b\r\n\r\nfirst line\r\nsecond line\r\n",
    ));
    assert_eq!(request.method, Method::Post);
    assert_eq!(request.message_body, "second line");
}

#[test]
fn header_value_with_http_is_a_request_line() {
    let request = HttpRequest::from(String::from("GET /a HTTP/1.1\r\nReferer: HTTP://x\r\n"));
    assert_eq!(request.method, Method::Uninitialized);
    assert_eq!(request.resource, Resource::Path("HTTP://x".to_string()));
    assert_eq!(request.version, Version::Uninitialized);
    assert_eq!(request.headers.len(), 0);
}

#[test]
fn carriage_return_belongs_to_the_line_end_only() {
    let request = HttpRequest::from(String::from("a\rb\r\n"));
    assert_eq!(request.message_body, "a\rb");
    let request = HttpRequest::from(String::from("tail\r"));
    assert_eq!(request.message_body, "tail\r");
    let request = HttpRequest::from(String::from("one\n\r\n"));
    assert_eq!(request.message_body, "one");
}

#[test]
fn padding_after_the_message_is_tolerated() {
    let mut text = String::from("GET /greeting HTTP/1.1\r\nHost: localhost\r\n\r\n");
    for _ in 0..64 {
        text.push('\0');
    }
    let request = HttpRequest::from(text);
    assert_eq!(request.method, Method::Get);
    assert_eq!(request.version, Version::V1_1);
    assert_eq!(request.resource, Resource::Path("/greeting".to_string()));
    assert_eq!(request.headers, table(&[("Host", "localhost")]));
    assert_eq!(request.message_body, "\0".repeat(64));
}

#[test]
fn take_line_follows_the_kind_of_line() {
    let mut request = HttpRequest::from(String::new());
    request.take_line(String::from("Key : value "));
    request.take_line(String::new());
    request.take_line(String::from("body"));
    request.take_line(String::from("POST /p HTTP/1.1"));
    assert_eq!(request.headers, table(&[("Key", "value")]));
    assert_eq!(request.message_body, "body");
    assert_eq!(request.method, Method::Post);
    assert_eq!(request.resource, Resource::Path("/p".to_string()));
    assert_eq!(request.version, Version::V1_1);
}
