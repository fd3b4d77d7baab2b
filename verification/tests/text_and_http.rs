use chrome_bridge::http::{FileHttpManger, Page, DEFAULT_HTML};
use chrome_bridge::text::{
    decimal_bytes, decimal_string, join_with_spaces, replace_bytes, starts_with,
};

#[test]
fn decimal_numerals() {
    assert_eq!(decimal_string(0), "0");
    assert_eq!(decimal_string(7), "7");
    assert_eq!(decimal_string(9001), "9001");
    assert_eq!(decimal_string(u64::MAX), "18446744073709551615");
    assert_eq!(decimal_bytes(300), b"300".to_vec());
}

#[test]
fn replace_all_occurrences() {
    assert_eq!(replace_bytes(b"a{p}b{p}", b"{p}", b"12"), b"a12b12".to_vec());
    assert_eq!(replace_bytes(b"aaa", b"aa", b"x"), b"xa".to_vec());
    assert_eq!(replace_bytes(b"none here", b"{port}", b"1"), b"none here".to_vec());
    assert_eq!(replace_bytes(b"", b"x", b"y"), Vec::<u8>::new());
}

#[test]
fn text_helpers() {
    assert!(starts_with("https://a", "http"));
    assert!(!starts_with("htt", "http"));
    assert!(!starts_with("xz.html", "http"));
    let words = vec!["a".to_string(), "bc".to_string(), "d".to_string()];
    assert_eq!(join_with_spaces(&words), "a bc d");
    assert_eq!(join_with_spaces(&Vec::new()), "");
}

#[test]
fn serves_builtin_page_with_ws_port() {
    let line = b"GET /DEFAULT.html?p=1 HTTP/1.1\r\n";
    assert!(FileHttpManger::can_serve(line, 9000));
    match FileHttpManger::serve(line, 9000) {
        Page::Builtin(body) => {
            let text = String::from_utf8(body).unwrap();
            assert_eq!(text, DEFAULT_HTML.replace("{port}", "9001"));
            assert!(text.contains("ws://127.0.0.1:9001/ws"));
            assert!(!text.contains("{port}"));
        }
        Page::File(_) => panic!("expected the built-in page"),
    }
}

#[test]
fn serves_files_by_path() {
    let line = b"GET //xz.html?x=1 HTTP/1.1\r\n";
    match FileHttpManger::serve(line, 9000) {
        Page::File(path) => assert_eq!(path, b"xz.html?x=1".to_vec()),
        Page::Builtin(_) => panic!("expected a file"),
    }
    match FileHttpManger::serve(b"GET /", 9000) {
        Page::File(path) => assert!(path.is_empty()),
        Page::Builtin(_) => panic!("expected a file"),
    }
}

#[test]
fn refuses_lines_without_target() {
    assert!(!FileHttpManger::can_serve(b"GARBAGE", 9000));
    assert!(!FileHttpManger::can_serve(b"GET /DEFAULT.html HTTP/1.1", 65535));
    assert!(FileHttpManger::can_serve(b"GET /a.html HTTP/1.1", 65535));
}

#[test]
fn response_framing() {
    let r = FileHttpManger::response(b"hello");
    assert_eq!(
        String::from_utf8(r).unwrap(),
        "HTTP/1.1 200 OK\r\nServer: Rust\r\nContent-Type: text/html;charset=utf-8\r\nContent-Length: 5\r\n\r\nhello"
    );
    let r = FileHttpManger::response("é".as_bytes());
    assert!(String::from_utf8(r).unwrap().contains("Content-Length: 2\r\n"));
}

#[test]
fn file_server_new() {
    let _s = FileHttpManger::new();
}
