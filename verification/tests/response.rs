use http_server::headers::Headers;
use http_server::http_response::HttpResponse;

#[test]
fn test_new() {
    let actual = HttpResponse::new("404", None, Some("abc".to_string()));

    let expected = HttpResponse::new(
        "404",
        {
            let mut expected_header = Headers::new();
            expected_header.insert("Content-Type".to_string(), "text/html".to_string());
            Some(expected_header)
        },
        Some("abc".to_string()),
    );

    assert_eq!(actual, expected);
    assert_eq!(actual.version(), "HTTP/1.1");
    assert_eq!(actual.status_code(), "404");
    assert_eq!(actual.status_text(), "Not Found");
    assert_eq!(actual.headers(), "Content-Type:text/html\r\n");
    assert_eq!(actual.body(), "abc");
}

#[test]
fn test_from() {
    let resp = HttpResponse::new(
        "404",
        {
            let mut expected_header = Headers::new();
            expected_header.insert("Content-Type".to_string(), "text/html".to_string());
            Some(expected_header)
        },
        Some("nana".to_string()),
    );
    assert_eq!(resp.version(), "HTTP/1.1");
    assert_eq!(resp.status_code(), "404");
    assert_eq!(resp.status_text(), "Not Found");

    let actual: String = resp.into();
    let expected = "HTTP/1.1 404 Not Found\r\nContent-Type:text/html\r\nContent-Length:4\r\n\r\nnana";
    assert_eq!(actual, expected);
}

#[test]
fn reason_phrases() {
    assert_eq!(HttpResponse::new("200", None, None).status_text(), "OK");
    assert_eq!(HttpResponse::new("400", None, None).status_text(), "Bad Request");
    assert_eq!(HttpResponse::new("404", None, None).status_text(), "Not Found");
    assert_eq!(HttpResponse::new("500", None, None).status_text(), "Internal Server Error");
    assert_eq!(HttpResponse::new("999", None, None).status_text(), "Unknown");
    assert_eq!(HttpResponse::new("201", None, None).status_text(), "Unknown");
    assert_eq!(HttpResponse::new("", None, None).status_text(), "Unknown");
    assert_eq!(HttpResponse::new("999", None, None).status_code(), "999");
    assert_eq!(HttpResponse::new("2000", None, None).status_text(), "Unknown");
}

#[test]
fn default_header_is_the_only_one() {
    let wire = HttpResponse::new("200", None, Some("hi".to_string())).serialize();
    assert_eq!(wire, "HTTP/1.1 200 OK\r\nContent-Type:text/html\r\nContent-Length:2\r\n\r\nhi");
    let header_lines: Vec<&str> = wire
        .split("\r\n")
        .skip(1)
        .take_while(|line| !line.is_empty())
        .collect();
    assert_eq!(header_lines, vec!["Content-Type:text/html", "Content-Length:2"]);
}

#[test]
fn content_length_counts_bytes() {
    assert_eq!(
        HttpResponse::new("200", None, None).serialize(),
        "HTTP/1.1 200 OK\r\nContent-Type:text/html\r\nContent-Length:0\r\n\r\n"
    );
    assert_eq!(
        HttpResponse::new("200", None, Some(String::new())).serialize(),
        "HTTP/1.1 200 OK\r\nContent-Type:text/html\r\nContent-Length:0\r\n\r\n"
    );
    assert_eq!(
        HttpResponse::new("200", None, Some("h\u{e9}llo \u{4f60}".to_string())).serialize(),
        "HTTP/1.1 200 OK\r\nContent-Type:text/html\r\nContent-Length:10\r\n\r\nh\u{e9}llo \u{4f60}"
    );
    let long = "x".repeat(12345);
    let wire = HttpResponse::new("200", None, Some(long.clone())).serialize();
    assert_eq!(
        wire,
        format!("HTTP/1.1 200 OK\r\nContent-Type:text/html\r\nContent-Length:12345\r\n\r\n{}", long)
    );
}

#[test]
fn given_headers_stand_alone() {
    let mut headers = Headers::new();
    headers.insert("Content-Type".to_string(), "application/json".to_string());
    headers.insert("X-Trace".to_string(), "1".to_string());
    let resp = HttpResponse::new("500", Some(headers), Some("{}".to_string()));
    assert_eq!(resp.headers(), "Content-Type:application/json\r\nX-Trace:1\r\n");
    assert_eq!(
        resp.serialize(),
        "HTTP/1.1 500 Internal Server Error\r\nContent-Type:application/json\r\nX-Trace:1\r\nContent-Length:2\r\n\r\n{}"
    );
    let bare = HttpResponse::new("200", Some(Headers::new()), None);
    assert_eq!(bare.headers(), "");
    assert_eq!(bare.serialize(), "HTTP/1.1 200 OK\r\nContent-Length:0\r\n\r\n");
}

#[test]
fn default_response() {
    let resp = HttpResponse::default();
    assert_eq!(resp.version(), "HTTP/1.1");
    assert_eq!(resp.status_code(), "200");
    assert_eq!(resp.status_text(), "OK");
    assert_eq!(resp.headers(), "Content-Type:text/html\r\n");
    assert_eq!(resp.body(), "");
    assert_eq!(resp, HttpResponse::new("200", None, None));
}

#[test]
fn body_is_empty_where_there_is_none() {
    assert_eq!(HttpResponse::new("200", None, None).body(), "");
    assert_eq!(HttpResponse::new("200", None, Some("abc".to_string())).body(), "abc");
    assert_ne!(
        HttpResponse::new("200", None, None),
        HttpResponse::new("200", None, Some(String::new()))
    );
}

#[test]
fn clone_is_equal() {
    let resp = HttpResponse::new("404", None, Some("gone".to_string()));
    let copy = resp.clone();
    assert_eq!(copy, resp);
    assert_eq!(copy.serialize(), resp.serialize());
}

#[test]
fn send_response_appends_the_wire_bytes() {
    let resp = HttpResponse::new("404", None, Some("na\u{ef}ve".to_string()));
    let mut sink: Vec<u8> = b"before".to_vec();
    resp.send_response(&mut sink);
    let mut expected = b"before".to_vec();
    expected.extend_from_slice(
        "HTTP/1.1 404 Not Found\r\nContent-Type:text/html\r\nContent-Length:6\r\n\r\nna\u{ef}ve".as_bytes(),
    );
    assert_eq!(sink, expected);
    let wire: String = resp.into();
    assert_eq!(&sink[6..], wire.as_bytes());
}

#[test]
fn wire_text_read_by_lines() {
    let mut headers = Headers::new();
    headers.insert("Content-Type".to_string(), "text/plain".to_string());
    headers.insert("X-Trace".to_string(), "a:b".to_string());
    let wire = HttpResponse::new("404", Some(headers), Some("one\ntwo".to_string())).serialize();
    assert_eq!(
        http_server::text::lines_of(&wire),
        vec![
            "HTTP/1.1 404 Not Found",
            "Content-Type:text/plain",
            "X-Trace:a:b",
            "Content-Length:7",
            "",
            "one",
            "two"
        ]
    );
}

#[test]
fn given_content_length_is_left_out() {
    let mut headers = Headers::new();
    headers.insert("X-First".to_string(), "1".to_string());
    headers.insert("Content-Length".to_string(), "99".to_string());
    headers.insert("X-Last".to_string(), "2".to_string());
    let resp = HttpResponse::new("200", Some(headers), Some("abc".to_string()));
    assert_eq!(resp.headers(), "X-First:1\r\nX-Last:2\r\n");
    assert_eq!(
        resp.serialize(),
        "HTTP/1.1 200 OK\r\nX-First:1\r\nX-Last:2\r\nContent-Length:3\r\n\r\nabc"
    );
    let mut headers = Headers::new();
    headers.insert("content-length".to_string(), "99".to_string());
    let resp = HttpResponse::new("200", Some(headers), None);
    assert_eq!(resp.headers(), "content-length:99\r\n");
}
