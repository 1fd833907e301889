use rab::http::create_request;
use rab::http::decide_version;
use rab::http::format_request;
use rab::http::parse_server;
use rab::http::try_create_request;
use rab::http::HttpVersion;
use rab::http::Response;
use url::Url;

#[test]
fn test_parse_status_code() {
    assert_eq!(
        200,
        Response::parse("HTTP/1.1 200 OK".as_bytes(), true)
            .unwrap()
            .status
    );
}

#[test]
fn test_parse_server() {
    let google_response = "HTTP/1.1 200 OK\r\n\
          Date: Thu, 18 Mar 2021 19:24:37 GMT\r\n\
          P3P: CP=\"This is not a P3P policy! See g.co/p3phelp for more info.\"\r\n\
          Server: gws\r\n\
        ";
    assert_eq!(
        Some("gws".to_owned()),
        Response::parse(google_response.as_bytes(), false)
            .unwrap()
            .server
    );

    let google_response_simple = "HTTP/1.1 200 OK\r\nServer: gws\r\n";
    assert_eq!(
        Some("gws".to_owned()),
        Response::parse(google_response_simple.as_bytes(), false)
            .unwrap()
            .server
    );

    let no_server_response =
        "HTTP/1.1 404 Not Found\r\nContent-Type: application/json;charset=UTF-8\r\n";
    assert_eq!(
        None,
        Response::parse(no_server_response.as_bytes(), false)
            .unwrap()
            .server
    );

    assert_eq!(
        None,
        Response::parse(google_response.as_bytes(), true)
            .unwrap()
            .server
    );
}

#[test]
fn parse_reads_every_status_digit() {
    assert_eq!(
        404,
        Response::parse(b"HTTP/1.1 404 Not Found", true).unwrap().status
    );
    assert_eq!(7, Response::parse(b"HTTP/1.0 007", true).unwrap().status);
    assert_eq!(999, Response::parse(b"HTTP/1.1 999", true).unwrap().status);
    assert_eq!(0, Response::parse(b"HTTP/1.1 000", true).unwrap().status);
}

#[test]
fn parse_rejects_a_short_head() {
    let err = Response::parse(b"HTTP/1.1 20", true).err().unwrap();
    assert_eq!("Cannot parse as HTTP header: HTTP/1.1 20", err);
    let err = Response::parse(b"", false).err().unwrap();
    assert_eq!("Cannot parse as HTTP header: ", err);
}

#[test]
fn parse_rejects_a_status_that_is_no_number() {
    let err = Response::parse(b"HTTP/1.1 2x0 OK", true).err().unwrap();
    assert_eq!("Cannot parse as HTTP header: HTTP/1.1 2x0 OK", err);
    assert!(Response::parse(b"HTTP/1.1 OK 200", false).is_err());
    assert!(Response::parse(b"HTTP/1.1 /00 OK", false).is_err());
    assert!(Response::parse(b"HTTP/1.1 20: OK", false).is_err());
}

#[test]
fn parse_error_replaces_bytes_that_are_no_text() {
    let err = Response::parse(&[0xff, b'a'], true).err().unwrap();
    assert_eq!("Cannot parse as HTTP header: \u{fffd}a", err);
}

#[test]
fn parse_server_takes_the_first_server_line() {
    assert_eq!(
        Some("first".to_owned()),
        parse_server(b"HTTP/1.1 200 OK\r\nServer: first\r\nServer: second\r\n")
    );
    assert_eq!(
        Some("nginx/1.2".to_owned()),
        parse_server(b"HTTP/1.1 200 OK\r\nX: y\r\nServer: nginx/1.2")
    );
    assert_eq!(Some("top".to_owned()), parse_server(b"Server: top\r\nmore"));
}

#[test]
fn parse_server_minds_the_spelling_and_the_line_start() {
    assert_eq!(None, parse_server(b"HTTP/1.1 200 OK\r\nserver: gws\r\n"));
    assert_eq!(None, parse_server(b"HTTP/1.1 200 OK\r\nX-Server: gws\r\n"));
    assert_eq!(None, parse_server(b"HTTP/1.1 200 OK\nServer: gws\r\n"));
    assert_eq!(None, parse_server(b"HTTP/1.1 200 OK\r\n Server: gws\r\n"));
    assert_eq!(None, parse_server(b""));
    assert_eq!(None, parse_server(b"\r\n\r\n"));
}

#[test]
fn parse_server_skips_one_byte_behind_the_colon() {
    assert_eq!(Some("ws".to_owned()), parse_server(b"Server:gws\r\n"));
    assert_eq!(Some("".to_owned()), parse_server(b"a\r\nServer:\r\nb"));
    assert_eq!(Some("".to_owned()), parse_server(b"a\r\nServer: \r\nb"));
    assert_eq!(Some("".to_owned()), parse_server(b"Server:"));
    assert_eq!(Some("a\rb".to_owned()), parse_server(b"Server: a\rb\r\n"));
}

#[test]
fn parse_server_decodes_the_value() {
    assert_eq!(
        Some("caf\u{e9}".to_owned()),
        parse_server("x\r\nServer: caf\u{e9}\r\n".as_bytes())
    );
    assert_eq!(
        Some("a\u{fffd}b".to_owned()),
        parse_server(&[b'S', b'e', b'r', b'v', b'e', b'r', b':', b' ', b'a', 0xff, b'b'])
    );
}

#[test]
fn decide_version_follows_the_flag() {
    assert_eq!(HttpVersion::V1_0, decide_version(true));
    assert_eq!(HttpVersion::V1_1, decide_version(false));
}

#[test]
fn format_request_spells_the_request() {
    assert_eq!(
        "GET /index.html HTTP/1.0\r\nHost: example.com\r\nAccept: */*\r\n\r\n",
        format_request("example.com", "/index.html", false, HttpVersion::V1_0)
    );
    assert_eq!(
        "HEAD / HTTP/1.1\r\nHost: localhost\r\nAccept: */*\r\n\r\n",
        format_request("localhost", "/", true, HttpVersion::V1_1)
    );
}

#[test]
fn create_request_takes_host_and_path_from_the_url() {
    let url = Url::parse("http://localhost:3000").expect("Invalid url");
    assert_eq!(
        "GET / HTTP/1.0\r\nHost: localhost\r\nAccept: */*\r\n\r\n",
        create_request(&url, false, HttpVersion::V1_0)
    );
    let url = Url::parse("https://example.com:8443/a/b?c=d#e").expect("Invalid url");
    assert_eq!(
        "HEAD /a/b?c=d#e HTTP/1.1\r\nHost: example.com\r\nAccept: */*\r\n\r\n",
        create_request(&url, true, HttpVersion::V1_1)
    );
}

#[test]
fn try_create_request_wants_a_host() {
    let url = Url::parse("http://127.0.0.1/x").expect("Invalid url");
    assert_eq!(
        Some("GET /x HTTP/1.1\r\nHost: 127.0.0.1\r\nAccept: */*\r\n\r\n".to_owned()),
        try_create_request(&url, false, HttpVersion::V1_1)
    );
    let url = Url::parse("data:text/plain,Stuff").expect("Invalid url");
    assert_eq!(None, try_create_request(&url, false, HttpVersion::V1_1));
}
