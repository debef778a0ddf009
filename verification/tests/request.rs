use http_server::headers::Headers;
use http_server::http_request::{HttpRequest, Method, ParseError, Resource, Version};

#[test]
fn test_get_http_request() {
    let req = 
        "GET /text.html HTTP/1.1
Accept: */*q
Accept-Language: zh-cn
Accept-Encoding: gzip, deflate
User-Agent: Mozilla/4.0 (compatible; MSIE 6.0; Windows NT 5.1; SV1; .NET CLR 2.0.50727; .NET CLR 3.0.04506.648; .NET CLR 3.5.21022)
Host: 127.0.0.1
Connection: Keep-Alive

";

    println!("{}", req);

    let http_req = HttpRequest::parse(req).unwrap();

    let mut expected_headers = Headers::new();
    expected_headers.insert("Accept".into(), "*/*q".into());
    expected_headers.insert("Accept-Language".into(), "zh-cn".into());
    expected_headers.insert("Accept-Encoding".into(), "gzip, deflate".into());
    expected_headers.insert("User-Agent".into(), "Mozilla/4.0 (compatible; MSIE 6.0; Windows NT 5.1; SV1; .NET CLR 2.0.50727; .NET CLR 3.0.04506.648; .NET CLR 3.5.21022)".into());
    expected_headers.insert("Host".into(), "127.0.0.1".into());
    expected_headers.insert("Connection".into(), "Keep-Alive".into());

    assert_eq!(http_req.method, Method::GET);
    assert_eq!(http_req.resource, Resource::PATH("/text.html".to_string()));
    assert_eq!(http_req.version, Version::V1_1);
    assert_eq!(http_req.headers, expected_headers);
}

#[test]
fn test_post_http_request() {
    let req = 
        "POST /text.html HTTP/1.1
Host:www.wrox.com
User-Agent:Mozilla/4.0 (compatible; MSIE 6.0; Windows NT 5.1; SV1; .NET CLR 2.0.50727; .NET CLR 3.0.04506.648; .NET CLR 3.5.21022)
Content-Type:application/x-www-form-urlencoded
Content-Length:40
Connection: Keep-Alive

name=Professional%20Ajax&publisher=Wiley";

    println!("{}", req);

    let http_req = HttpRequest::parse(req).unwrap();

    let mut expected_headers = Headers::new();
    expected_headers.insert("Content-Type".into(), "application/x-www-form-urlencoded".into());
    expected_headers.insert("Content-Length".into(), "40".into());
    expected_headers.insert("User-Agent".into(), "Mozilla/4.0 (compatible; MSIE 6.0; Windows NT 5.1; SV1; .NET CLR 2.0.50727; .NET CLR 3.0.04506.648; .NET CLR 3.5.21022)".into());
    expected_headers.insert("Host".into(), "www.wrox.com".into());
    expected_headers.insert("Connection".into(), "Keep-Alive".into());

    assert_eq!(http_req.method, Method::POST);
    assert_eq!(http_req.resource, Resource::PATH("/text.html".to_string()));
    assert_eq!(http_req.version, Version::V1_1);
    assert_eq!(http_req.headers, expected_headers);
    assert_eq!(http_req.body, "name=Professional%20Ajax&publisher=Wiley".to_string());
}

#[test]
fn get_with_one_header_and_no_body() {
    let req = HttpRequest::parse("GET /text.html HTTP/1.1\nHost: 127.0.0.1\n\n").unwrap();
    assert_eq!(req.method, Method::GET);
    assert_eq!(req.resource, Resource::PATH("/text.html".to_string()));
    assert_eq!(req.version, Version::V1_1);
    assert_eq!(req.headers.len(), 1);
    assert_eq!(req.headers.get("Host"), Some(&"127.0.0.1".to_string()));
    assert_eq!(req.body, "");
}

#[test]
fn post_with_body() {
    let req = HttpRequest::parse("POST /text.html HTTP/1.1\nContent-Length:5\n\nhello").unwrap();
    assert_eq!(req.method, Method::POST);
    assert_eq!(req.body, "hello");
    assert_eq!(req.headers.get("Content-Length"), Some(&"5".to_string()));
}

#[test]
fn header_value_keeps_its_colons() {
    let req = HttpRequest::parse(
        "GET / HTTP/1.1\nReferer: http://example.com:8080/a\nDate: Tue, 15 Nov 1994 08:12:31 GMT\n\n",
    )
    .unwrap();
    assert_eq!(req.headers.get("Referer"), Some(&"http://example.com:8080/a".to_string()));
    assert_eq!(req.headers.get("Date"), Some(&"Tue, 15 Nov 1994 08:12:31 GMT".to_string()));
    assert_eq!(req.headers.len(), 2);
}

#[test]
fn as_many_entries_as_header_lines() {
    let req = HttpRequest::parse("GET / HTTP/1.1\nA: 1\nB:2\nC:   3   \n\n").unwrap();
    assert_eq!(req.headers.len(), 3);
    assert_eq!(req.headers.get("A"), Some(&"1".to_string()));
    assert_eq!(req.headers.get("B"), Some(&"2".to_string()));
    assert_eq!(req.headers.get("C"), Some(&"3".to_string()));
    assert_eq!(req.headers.get("D"), None);
    assert_eq!(req.body, "");
}

#[test]
fn header_name_is_taken_as_written() {
    let req = HttpRequest::parse("GET / HTTP/1.1\n Host : a\nhost:b\n\n").unwrap();
    assert_eq!(req.headers.len(), 2);
    assert_eq!(req.headers.get(" Host "), Some(&"a".to_string()));
    assert_eq!(req.headers.get("host"), Some(&"b".to_string()));
    assert_eq!(req.headers.get("Host"), None);
}

#[test]
fn later_header_replaces_earlier_one() {
    let req = HttpRequest::parse("GET / HTTP/1.1\nHost: a\nAccept: x\nHost: b\n\n").unwrap();
    assert_eq!(req.headers.len(), 2);
    assert_eq!(req.headers.get("Host"), Some(&"b".to_string()));
    assert_eq!(req.headers.get("Accept"), Some(&"x".to_string()));
}

#[test]
fn carriage_returns_belong_to_the_line_ending() {
    let req =
        HttpRequest::parse("GET /index.html HTTP/1.1\r\nHost: 127.0.0.1\r\n\r\nhello\r\n").unwrap();
    assert_eq!(req.method, Method::GET);
    assert_eq!(req.resource, Resource::PATH("/index.html".to_string()));
    assert_eq!(req.version, Version::V1_1);
    assert_eq!(req.headers.get("Host"), Some(&"127.0.0.1".to_string()));
    assert_eq!(req.headers.len(), 1);
    assert_eq!(req.body, "hello");
}

#[test]
fn empty_header_section() {
    let req = HttpRequest::parse("GET / HTTP/1.1\n\n").unwrap();
    assert!(req.headers.is_empty());
    assert_eq!(req.headers.len(), 0);
    assert_eq!(req.body, "");
}

#[test]
fn body_is_the_line_after_the_empty_line() {
    let req = HttpRequest::parse("POST / HTTP/1.1\n\nfirst\nsecond\n").unwrap();
    assert_eq!(req.body, "first");
    let req = HttpRequest::parse("POST / HTTP/1.1\n\n\nsecond\n").unwrap();
    assert_eq!(req.body, "");
}

#[test]
fn unknown_method_and_version_are_no_errors() {
    let req = HttpRequest::parse("DELETE /x HTTP/2.0\n\n").unwrap();
    assert_eq!(req.method, Method::UNKNOWN);
    assert_eq!(req.version, Version::UNKNOWN);
    assert_eq!(req.resource, Resource::PATH("/x".to_string()));
    let req = HttpRequest::parse("get /x http/1.1\n\n").unwrap();
    assert_eq!(req.method, Method::UNKNOWN);
    assert_eq!(req.version, Version::UNKNOWN);
}

#[test]
fn tokens_stand_between_single_spaces() {
    let req = HttpRequest::parse("GET  / HTTP/1.1\n\n").unwrap();
    assert_eq!(req.method, Method::GET);
    assert_eq!(req.resource, Resource::PATH("".to_string()));
    assert_eq!(req.version, Version::UNKNOWN);
    let req = HttpRequest::parse("GET /a HTTP/1.1 and more\n\n").unwrap();
    assert_eq!(req.resource, Resource::PATH("/a".to_string()));
    assert_eq!(req.version, Version::V1_1);
}

#[test]
fn request_line_with_too_few_tokens() {
    assert_eq!(HttpRequest::parse("").unwrap_err(), ParseError::MalformedRequestLine);
    assert_eq!(HttpRequest::parse("\n\n").unwrap_err(), ParseError::MalformedRequestLine);
    assert_eq!(HttpRequest::parse("GET\n\n").unwrap_err(), ParseError::MalformedRequestLine);
    assert_eq!(HttpRequest::parse("GET /text.html\n\n").unwrap_err(), ParseError::MalformedRequestLine);
    assert_eq!(
        HttpRequest::parse("GET\t/text.html\tHTTP/1.1\n\n").unwrap_err(),
        ParseError::MalformedRequestLine
    );
}

#[test]
fn header_line_without_colon() {
    assert_eq!(
        HttpRequest::parse("GET / HTTP/1.1\nHost 127.0.0.1\n\n").unwrap_err(),
        ParseError::MalformedHeaderLine
    );
    assert_eq!(
        HttpRequest::parse("GET / HTTP/1.1\nHost: a\nbroken\nAccept: b\n\n").unwrap_err(),
        ParseError::MalformedHeaderLine
    );
    assert_eq!(
        HttpRequest::parse("GET / HTTP/1.1\nHost: a\nbroken").unwrap_err(),
        ParseError::MalformedHeaderLine
    );
}

#[test]
fn header_section_without_end() {
    assert_eq!(HttpRequest::parse("GET / HTTP/1.1").unwrap_err(), ParseError::UnterminatedHeaders);
    assert_eq!(HttpRequest::parse("GET / HTTP/1.1\n").unwrap_err(), ParseError::UnterminatedHeaders);
    assert_eq!(
        HttpRequest::parse("GET / HTTP/1.1\nHost: a\n").unwrap_err(),
        ParseError::UnterminatedHeaders
    );
}

#[test]
fn request_line_comes_before_headers() {
    assert_eq!(
        HttpRequest::parse("GET /\nbroken\n").unwrap_err(),
        ParseError::MalformedRequestLine
    );
}

#[test]
fn parsing_twice_gives_equal_requests() {
    let raw = "POST /api/users HTTP/1.1\r\nHost: a\r\nAccept: */*\r\n\r\n{\"k\": 1}";
    let first = HttpRequest::parse(raw);
    let second = HttpRequest::parse(raw);
    assert_eq!(first, second);
    assert!(first.is_ok());
    let bad = "GET /\n";
    assert_eq!(HttpRequest::parse(bad), HttpRequest::parse(bad));
}

#[test]
fn request_line_parts() {
    assert_eq!(
        HttpRequest::parse_req_line("GET /text.html HTTP/1.1"),
        Some((Method::GET, Resource::PATH("/text.html".to_string()), Version::V1_1))
    );
    assert_eq!(
        HttpRequest::parse_req_line("POST  HTTP/1.1"),
        Some((Method::POST, Resource::PATH("".to_string()), Version::V1_1))
    );
    assert_eq!(
        HttpRequest::parse_req_line("  "),
        Some((Method::UNKNOWN, Resource::PATH("".to_string()), Version::UNKNOWN))
    );
    assert_eq!(HttpRequest::parse_req_line("GET /text.html"), None);
    assert_eq!(HttpRequest::parse_req_line(""), None);
}

#[test]
fn header_line_parts() {
    assert_eq!(
        HttpRequest::parse_header_line("Host: 127.0.0.1"),
        Some(("Host".to_string(), "127.0.0.1".to_string()))
    );
    assert_eq!(
        HttpRequest::parse_header_line("a:b:c"),
        Some(("a".to_string(), "b:c".to_string()))
    );
    assert_eq!(
        HttpRequest::parse_header_line("X: \t spaced out \u{3000}\r"),
        Some(("X".to_string(), "spaced out".to_string()))
    );
    assert_eq!(HttpRequest::parse_header_line(":"), Some(("".to_string(), "".to_string())));
    assert_eq!(HttpRequest::parse_header_line("K:   "), Some(("K".to_string(), "".to_string())));
    assert_eq!(HttpRequest::parse_header_line("no colon"), None);
    assert_eq!(HttpRequest::parse_header_line(""), None);
}

#[test]
fn method_and_version_from_tokens() {
    assert_eq!(Method::from("GET"), Method::GET);
    assert_eq!(Method::from("POST"), Method::POST);
    assert_eq!(Method::from("PUT"), Method::UNKNOWN);
    assert_eq!(Method::from("GETS"), Method::UNKNOWN);
    assert_eq!(Method::from(""), Method::UNKNOWN);
    assert_eq!(Version::from("HTTP/1.1"), Version::V1_1);
    assert_eq!(Version::from("HTTP/1.0"), Version::UNKNOWN);
    assert_eq!(Version::from("HTTP/2.0"), Version::UNKNOWN);
    assert_eq!(Version::from("HTTP/1.1 "), Version::UNKNOWN);
}

#[test]
fn text_that_is_not_ascii() {
    let req = HttpRequest::parse("GET /caf\u{e9} HTTP/1.1\nX-Name: \u{4f60}\u{597d}\n\nna\u{ef}ve").unwrap();
    assert_eq!(req.resource, Resource::PATH("/caf\u{e9}".to_string()));
    assert_eq!(req.headers.get("X-Name"), Some(&"\u{4f60}\u{597d}".to_string()));
    assert_eq!(req.body, "na\u{ef}ve");
}
