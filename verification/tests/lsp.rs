use fed::lsp::client::{make_init, Client};
use fed::lsp::framing::{decimal_string, frame_header, header_step, parse_usize, HeaderStep};
use fed::lsp::raw_client::RawClient;
use fed::lsp::request::RequestId;
use std::path::PathBuf;

#[test]
fn frame_header_text() {
    assert_eq!(frame_header(42), "Content-Length: 42\r\n\r\n");
    assert_eq!(frame_header(0), "Content-Length: 0\r\n\r\n");
    assert_eq!(decimal_string(1234567), "1234567");
}

#[test]
fn header_lines() {
    assert_eq!(header_step("Content-Length: 42\r\n", None), HeaderStep::Continue(Some(42)));
    assert_eq!(header_step("Content-Length:   7 \r\n", Some(1)), HeaderStep::Continue(Some(7)));
    assert_eq!(header_step("Content-Type: text\r\n", Some(3)), HeaderStep::Continue(Some(3)));
    assert_eq!(header_step("Content-Length: x1\r\n", None), HeaderStep::Fail);
    assert_eq!(header_step("Content-Length\r\n", None), HeaderStep::Continue(None));
    assert_eq!(header_step("\r\n", Some(5)), HeaderStep::Done(Some(5)));
    assert_eq!(header_step("\n", None), HeaderStep::Done(None));
}

#[test]
fn law_framed_header_reads_back() {
    for n in [0usize, 9, 10, 4096, usize::MAX] {
        let h = frame_header(n);
        let first = &h[..h.len() - 2];
        assert_eq!(header_step(first, None), HeaderStep::Continue(Some(n)));
        assert_eq!(header_step("\r\n", Some(n)), HeaderStep::Done(Some(n)));
    }
}

#[test]
fn usize_parsing() {
    let p = |s: &str| parse_usize(&s.chars().collect());
    assert_eq!(p("123"), Some(123));
    assert_eq!(p("+5"), Some(5));
    assert_eq!(p("+"), None);
    assert_eq!(p(""), None);
    assert_eq!(p("-1"), None);
    assert_eq!(p("18446744073709551615"), "18446744073709551615".parse::<usize>().ok());
    assert_eq!(p("18446744073709551616"), None);
}

#[test]
fn init_request() {
    let r = make_init(&PathBuf::from("/tmp/project"));
    assert!(matches!(r.id, RequestId::Number(0)));
    assert_eq!(r.method, "initialize");
    let p = r.params.unwrap();
    assert_eq!(p.rootPath.as_deref(), Some("/tmp/project"));
    assert!(p.rootUri.is_none());
    assert!(p.processId.is_none());
}

#[test]
fn new_clients_are_not_running() {
    let c = Client::new(PathBuf::from("rls"), PathBuf::from("/w"));
    assert_eq!(c.work_dir, PathBuf::from("/w"));
    assert_eq!(c.raw.bin_path, PathBuf::from("rls"));
    assert!(c.raw.sender.is_none());
    let r = RawClient::new(PathBuf::from("x"));
    r.send(vec![1, 2, 3]);
    assert!(r.receiver.is_none());
    let req = c.init_request();
    assert_eq!(req.method, "initialize");
}

#[test]
fn send_reaches_channel() {
    let (s, rx) = std::sync::mpsc::channel();
    let mut r = RawClient::new(PathBuf::from("x"));
    r.sender = Some(s);
    r.send(vec![7]);
    assert_eq!(rx.recv().unwrap(), vec![7]);
}
