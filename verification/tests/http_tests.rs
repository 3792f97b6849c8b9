use snimap::error::{respond_status, ProxyError, ProxyErrorKind};
use snimap::http::{extract_host, http_head_end, Request, RespondBuilder, Status, Version};

#[test]
fn from_bytes_parses_a_request_head() {
    let data = b"GET / HTTP/1.1\r\nHost: example.com\r\nAccept: */*\r\n\r\nBODY";
    let req = Request::from_bytes(data).unwrap();
    assert_eq!(req.method, b"GET".to_vec());
    assert_eq!(req.uri, b"/".to_vec());
    assert_eq!(req.version, b"HTTP/1.1".to_vec());
    assert_eq!(
        req.headers,
        vec![b"Host: example.com".to_vec(), b"Accept: */*".to_vec()]
    );
    assert_eq!(req.body, b"BODY".to_vec());
}

#[test]
fn from_bytes_rejects_non_http() {
    assert!(Request::from_bytes(b"not a request").is_none());
    assert!(Request::from_bytes(b"GET /\r\n\r\n").is_none());
    assert!(Request::from_bytes(b"GET / SMTP/1.0\r\nHost: x\r\n\r\n").is_none());
    assert!(Request::from_bytes(b"GET / HTTP/1.1\r\nHost: x").is_none());
}

#[test]
fn headers_filter_drops_proxy_headers() {
    let data =
        b"GET / HTTP/1.1\r\nProxy-Connection: keep-alive\r\nHost: example.com\r\n\r\n.";
    let req = Request::from_bytes(data).unwrap();
    let filtered = req.drop_proxy_headers();
    assert_eq!(filtered.headers, vec![b"Host: example.com".to_vec()]);
    assert_eq!(filtered.method, b"GET".to_vec());
}

#[test]
fn http_head_end_finds_the_blank_line() {
    assert!(http_head_end(b"GET / HTTP/1.1\r\nHost: x\r\n\r\n"));
    assert!(http_head_end(b"junk\r\n\r\nmore"));
    assert!(!http_head_end(b"GET / HTTP/1.1\r\nHost: x\r\n"));
    assert!(!http_head_end(b""));
}

#[test]
fn extract_host_reads_socket_text() {
    assert_eq!(
        extract_host(b"http://user@host.test:8080/path"),
        Some("host.test:8080".to_string())
    );
    assert_eq!(
        extract_host(b"host.test:443"),
        Some("host.test:443".to_string())
    );
    assert_eq!(extract_host(b"host.test"), Some("host.test:80".to_string()));
    assert_eq!(
        extract_host(b"http://host.test/path"),
        Some("host.test:80".to_string())
    );
}

#[test]
fn canned_responses_have_exact_status_lines() {
    let r = RespondBuilder::default().nobody();
    assert_eq!(r.version, b"HTTP/1.1".to_vec());
    assert_eq!(r.status_reason, b"200 OK".to_vec());
    assert!(r.headers.is_empty());
    assert!(r.body.is_empty());

    let r = RespondBuilder::default()
        .version(Version::Http11)
        .status(Status::BadGateway)
        .nobody();
    assert_eq!(r.status_reason, b"502 Bad Gateway".to_vec());

    let r = RespondBuilder::default().status(Status::GatewayTimeout).nobody();
    assert_eq!(r.status_reason, b"504 Gateway Timeout".to_vec());

    let r = RespondBuilder::default().status(Status::RequestTimeout).nobody();
    assert_eq!(r.status_reason, b"408 Request Timeout".to_vec());

    let r = RespondBuilder::default().status(Status::BadRequest).nobody();
    assert_eq!(r.status_reason, b"400 Bad Request".to_vec());
}

#[test]
fn handshake_errors_map_to_reply_statuses() {
    assert_eq!(
        respond_status(&ProxyErrorKind::NotHttpRequest),
        Some(Status::BadRequest)
    );
    assert_eq!(
        respond_status(&ProxyErrorKind::InvalidHost),
        Some(Status::BadRequest)
    );
    assert_eq!(
        respond_status(&ProxyErrorKind::HostNotFound),
        Some(Status::BadRequest)
    );
    assert_eq!(
        respond_status(&ProxyErrorKind::ReadIo),
        Some(Status::BadRequest)
    );
    assert_eq!(
        respond_status(&ProxyErrorKind::ConnectIo),
        Some(Status::BadGateway)
    );
    assert_eq!(
        respond_status(&ProxyErrorKind::ConnectTimeout),
        Some(Status::GatewayTimeout)
    );
    assert_eq!(
        respond_status(&ProxyErrorKind::ReadTimeout),
        Some(Status::RequestTimeout)
    );
    assert_eq!(respond_status(&ProxyErrorKind::Other), None);
}

#[test]
fn proxy_error_builder_keeps_notes() {
    let e = ProxyError::new(ProxyErrorKind::ConnectIo)
        .upstream("up.test:443")
        .downstream("127.0.0.1:5000")
        .from("connection refused")
        .context("while connecting to server");
    assert!(matches!(e.kind(), ProxyErrorKind::ConnectIo));
    assert_eq!(e.upstream, Some("up.test:443".to_string()));
    assert_eq!(e.downstream, Some("127.0.0.1:5000".to_string()));
    assert_eq!(
        e.message(),
        "127.0.0.1:5000 -> up.test:443: while connecting to server: connection refused"
    );
}

#[test]
fn proxy_error_message_uses_placeholders() {
    let e = ProxyError::new(ProxyErrorKind::Other);
    assert_eq!(e.message(), "x -> x: ?: ?");
}
