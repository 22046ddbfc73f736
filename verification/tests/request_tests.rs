use light_translator::request::{
    build_transport, parse_method, plan_request, settle_response, u16_string, DispatchOutcome,
    Method, ProxyRequestOptions, ProxySettings, Transport,
};

fn proxy(enabled: bool) -> ProxySettings {
    ProxySettings {
        enabled,
        protocol: "http".to_string(),
        host: "proxy.local".to_string(),
        port: 8080,
        username: None,
        password: None,
    }
}

#[test]
fn method_names_map_case_insensitively() {
    assert_eq!(parse_method("GET"), Method::Get);
    assert_eq!(parse_method("get"), Method::Get);
    assert_eq!(parse_method("PoSt"), Method::Post);
    assert_eq!(parse_method("POST"), Method::Post);
    assert_eq!(parse_method("put"), Method::Put);
    assert_eq!(parse_method("Delete"), Method::Delete);
    assert_eq!(parse_method("patch"), Method::Patch);
}

#[test]
fn unrecognized_method_falls_back_to_get() {
    assert_eq!(parse_method(""), Method::Get);
    assert_eq!(parse_method("banana"), Method::Get);
    assert_eq!(parse_method("HEAD"), Method::Get);
    assert_eq!(parse_method("POSTS"), Method::Get);
    assert_eq!(parse_method("GETX"), Method::Get);
}

#[test]
fn port_renders_in_decimal() {
    assert_eq!(u16_string(0), "0");
    assert_eq!(u16_string(7), "7");
    assert_eq!(u16_string(8080), "8080");
    assert_eq!(u16_string(65535), "65535");
}

#[test]
fn enabled_proxy_routes_through_its_url() {
    let t = build_transport(&Some(proxy(true)));
    match t {
        Transport::Proxied { url } => assert_eq!(url, "http://proxy.local:8080"),
        Transport::Direct => panic!("expected a proxied transport"),
    }
}

#[test]
fn disabled_proxy_behaves_like_no_proxy() {
    assert!(matches!(build_transport(&Some(proxy(false))), Transport::Direct));
    assert!(matches!(build_transport(&None), Transport::Direct));
}

#[test]
fn plan_carries_headers_body_and_method() {
    let options = ProxyRequestOptions {
        method: Some("post".to_string()),
        headers: Some(vec![("X".to_string(), "1".to_string())]),
        body: Some("abc".to_string()),
    };
    let plan = plan_request("https://example.test/x".to_string(), Some(options), &None);
    assert_eq!(plan.url, "https://example.test/x");
    assert_eq!(plan.method, Method::Post);
    assert_eq!(plan.headers, vec![("X".to_string(), "1".to_string())]);
    assert_eq!(plan.body.as_deref(), Some("abc"));
    assert!(matches!(plan.transport, Transport::Direct));
}

#[test]
fn plan_defaults_without_options() {
    let plan = plan_request("https://example.test/".to_string(), None, &None);
    assert_eq!(plan.method, Method::Get);
    assert!(plan.headers.is_empty());
    assert!(plan.body.is_none());
}

#[test]
fn completed_dispatch_settles_into_success_response() {
    let r = settle_response(DispatchOutcome::Completed { status: 201, body: "ok".to_string() });
    assert!(r.ok);
    assert_eq!(r.status_code, Some(201));
    assert_eq!(r.data.as_deref(), Some("ok"));
    assert!(r.error.is_none());
}

#[test]
fn failure_status_is_not_ok_but_still_a_response() {
    let r = settle_response(DispatchOutcome::Completed { status: 404, body: "missing".to_string() });
    assert!(!r.ok);
    assert_eq!(r.status_code, Some(404));
    assert_eq!(r.data.as_deref(), Some("missing"));
    assert!(r.error.is_none());
}

#[test]
fn transport_failure_settles_into_error_response() {
    let r = settle_response(DispatchOutcome::TransportFailed {
        message: "dns error".to_string(),
    });
    assert!(!r.ok);
    assert_eq!(r.status_code, None);
    assert_eq!(r.data, None);
    assert_eq!(r.error.as_deref(), Some("dns error"));
}
