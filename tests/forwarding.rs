use route_proxy::api::ApiResponse;
use route_proxy::config::{default_db_path, default_timeout};
use route_proxy::forward::{
    classify_send_failure, is_hop_by_hop_header, outbound_headers,
    response_headers, HeaderField, ProxyError, MAX_BODY_BYTES,
};

fn h(name: &str, value: &str) -> HeaderField {
    HeaderField { name: name.to_string(), value: value.as_bytes().to_vec() }
}

fn values(hs: &[HeaderField], name: &str) -> Vec<String> {
    hs.iter()
        .filter(|x| x.name.eq_ignore_ascii_case(name))
        .map(|x| String::from_utf8(x.value.clone()).unwrap())
        .collect()
}

#[test]
fn hop_by_hop_names_ignore_case() {
    for n in ["connection", "Keep-Alive", "PROXY-AUTHENTICATE", "proxy-authorization", "te",
        "Trailers", "Transfer-Encoding", "upgrade", "Host"] {
        assert!(is_hop_by_hop_header(n), "{}", n);
    }
    for n in ["content-type", "x-forwarded-for", "tee", "hosts", ""] {
        assert!(!is_hop_by_hop_header(n), "{}", n);
    }
}

#[test]
fn hop_by_hop_headers_are_not_forwarded() {
    let inbound = vec![
        h("Connection", "keep-alive"),
        h("transfer-encoding", "chunked"),
        h("host", "me"),
        h("accept", "*/*"),
    ];
    let out = outbound_headers(&inbound, &b"10.0.0.1".to_vec(), "http://up/x");
    for x in &out {
        assert!(!is_hop_by_hop_header(&x.name));
    }
    assert_eq!(values(&out, "accept"), vec!["*/*"]);
    let back = response_headers(&vec![h("Upgrade", "h2c"), h("set-cookie", "a=1"), h("set-cookie", "b=2")]);
    assert_eq!(back.len(), 2);
    assert_eq!(values(&back, "set-cookie"), vec!["a=1", "b=2"]);
}

#[test]
fn forwarded_for_starts_a_chain() {
    let out = outbound_headers(&vec![], &b"1.2.3.4".to_vec(), "http://up/");
    assert_eq!(values(&out, "x-forwarded-for"), vec!["1.2.3.4"]);
    assert_eq!(values(&out, "x-real-ip"), vec!["1.2.3.4"]);
    assert_eq!(values(&out, "x-forwarded-proto"), vec!["http"]);
}

#[test]
fn forwarded_for_extends_a_chain() {
    let inbound = vec![h("X-Forwarded-For", "5.6.7.8"), h("x-real-ip", "9.9.9.9"), h("x-forwarded-proto", "https")];
    let out = outbound_headers(&inbound, &b"1.2.3.4".to_vec(), "http://up/");
    assert_eq!(values(&out, "x-forwarded-for"), vec!["5.6.7.8, 1.2.3.4"]);
    assert_eq!(values(&out, "x-real-ip"), vec!["9.9.9.9"]);
    assert_eq!(values(&out, "x-forwarded-proto"), vec!["https"]);
}

#[test]
fn forwarded_for_appends_to_any_chain() {
    let inbound = vec![HeaderField { name: "x-forwarded-for".to_string(), value: vec![0xff, 0x01] }];
    let out = outbound_headers(&inbound, &b"1.2.3.4".to_vec(), "https://up/");
    let xff: Vec<&HeaderField> = out.iter().filter(|x| x.name == "x-forwarded-for").collect();
    assert_eq!(xff.len(), 1);
    assert_eq!(xff[0].value, b"\xff\x01, 1.2.3.4".to_vec());
    assert_eq!(values(&out, "x-forwarded-proto"), vec!["https"]);
}

#[test]
fn forwarded_for_joins_all_lines() {
    let inbound = vec![
        h("x-forwarded-for", "10.0.0.1"),
        h("accept", "*/*"),
        h("X-Forwarded-For", "10.0.0.2, 10.0.0.3"),
    ];
    let out = outbound_headers(&inbound, &b"1.2.3.4".to_vec(), "http://up/");
    assert_eq!(values(&out, "x-forwarded-for"), vec!["10.0.0.1, 10.0.0.2, 10.0.0.3, 1.2.3.4"]);
}

#[test]
fn failures_map_to_statuses() {
    assert_eq!(classify_send_failure(true), ProxyError::UpstreamTimeout);
    assert_eq!(classify_send_failure(true).status_code(), 504);
    assert_eq!(classify_send_failure(false), ProxyError::UpstreamUnreachable);
    assert_eq!(classify_send_failure(false).status_code(), 502);
    assert_eq!(ProxyError::NoMatch.status_code(), 404);
    assert_eq!(ProxyError::BodyTooLarge.status_code(), 400);
}

#[test]
fn body_cap_is_100_mib() {
    assert_eq!(MAX_BODY_BYTES, 100 * 1024 * 1024);
}

#[test]
fn defaults() {
    assert_eq!(default_timeout(), 30);
    assert_eq!(default_db_path(), "./proxy.db");
    let r = ApiResponse::ok(7i64);
    assert!(r.success);
    assert_eq!(r.data, Some(7));
    assert!(r.message.is_none());
}
