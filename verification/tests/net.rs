use dsh_launcher::net::{http_ok, http_request, parse_port};
use dsh_launcher::text::to_decimal;

#[test]
fn port_is_found_in_every_address() {
    for port in [0u16, 1, 80, 3080, 65535] {
        let p = to_decimal(port as u64);
        assert_eq!(parse_port(&format!("http://localhost:{}", p)), port);
        assert_eq!(parse_port(&format!("https://[::1]:{}/a:b/c", p)), port);
        assert_eq!(parse_port(&format!("://:{}/", p)), port);
    }
}

#[test]
fn port_is_the_default_where_there_is_none() {
    for url in ["", "localhost:8080", "http:/localhost:8080", "http://", "http://h:", "http://h:65536", "http://h:x", "http://h/:80"] {
        assert_eq!(parse_port(url), 3080);
    }
    assert_eq!(parse_port("http://8080"), 8080);
}

#[test]
fn request_asks_for_the_root_page() {
    assert_eq!(
        http_request(3080),
        "GET / HTTP/1.1\r\nHost: 127.0.0.1:3080\r\nConnection: close\r\n\r\n"
    );
}

#[test]
fn reply_is_http_or_not() {
    assert!(http_ok(b"HTTP/1.1 200 OK\r\n"));
    assert!(http_ok(b"HTTP/"));
    assert!(http_ok(b"\xff\x00HHTTP/"));
    assert!(!http_ok(b""));
    assert!(!http_ok(b"HTTP"));
    assert!(!http_ok(b"http/1.1"));
    assert!(!http_ok(b"HTTP 1.1"));
}

#[test]
fn rest_of_an_address_does_not_matter() {
    for url in ["http://h:81", "http://h", "a/b/:7"] {
        for rest in ["", ":9", "x:1/y:2", "//:3"] {
            assert_eq!(parse_port(&format!("{}/{}", url, rest)), parse_port(url));
        }
    }
}
