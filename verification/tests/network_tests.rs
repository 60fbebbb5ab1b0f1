use xk_rust::failure::{FailureKind, VPN_GUIDANCE};
use xk_rust::json::JsonValue;
use reqwest::cookie::CookieStore;
use reqwest::Url;
use xk_rust::network::{
    add_session_cookie, install_session, is_vpn_url, json_response, redirect_action, send_checked, session_headers,
    session_jar, RedirectAction, SessionCookie, SessionStore, UrlParts, XK_LOGIN, XK_ORIGIN,
};

fn cookie(name: &str, value: &str, path: &str) -> SessionCookie {
    SessionCookie { name: name.to_owned(), value: value.to_owned(), path: path.to_owned() }
}

#[test]
fn vpn_redirect_is_detected_without_replaying_or_disclosing_token() {
    for status in [302, 307] {
        let error = send_checked(
            "验证码接口",
            "http://127.0.0.1:8080/",
            Some("https://vpn.neuedu.com:4443/controller/v1/public/verify?t=TEST_SECRET"),
            status,
        )
        .unwrap_err();
        assert_eq!(error.kind, FailureKind::VpnRequired);
        assert!(!error.report().contains("TEST_SECRET"));
    }
}

#[test]
fn cross_origin_307_never_forwards_post_body() {
    assert_eq!(
        redirect_action(0, Some("http://127.0.0.1:8080"), Some("http://127.0.0.1:9090")),
        RedirectAction::Stop
    );
    let error = send_checked("登录接口", "http://127.0.0.1:8080/", Some("http://127.0.0.1:9090/verify?t=TEST_SECRET"), 307)
        .unwrap_err();
    assert!(error.message().contains("未允许的跳转"));
    assert!(!error.message().contains("TEST_SECRET"));
}

#[test]
fn same_origin_redirect_still_works() {
    assert_eq!(
        redirect_action(0, Some("http://127.0.0.1:8080"), Some("http://127.0.0.1:8080")),
        RedirectAction::Follow
    );
    assert!(send_checked("测试", "http://127.0.0.1:8080/ready", None, 200).is_ok());
}

#[test]
fn direct_401_is_not_misreported_as_vpn_or_leaks_query() {
    let error = send_checked("登录接口", "http://127.0.0.1:8080/?t=TEST_SECRET", None, 401).unwrap_err();
    assert_ne!(error.kind, FailureKind::VpnRequired);
    assert!(error.message().contains("401"));
    assert!(!error.message().contains("TEST_SECRET"));
}

#[test]
fn vpn_host_matching_is_exact() {
    assert!(is_vpn_url(&UrlParts::parse("https://vpn.neuedu.com:4443/verify").unwrap()));
    assert!(!is_vpn_url(&UrlParts::parse("https://vpn.neuedu.com.example.com/").unwrap()));
}

#[test]
fn relative_location_is_resolved_against_the_response() {
    let error = send_checked("测试", "https://vpn.neuedu.com/a/b", Some("../c"), 302).unwrap_err();
    assert_eq!(error.kind, FailureKind::VpnRequired);
    let joined = UrlParts::join("https://xk.neusoft.edu.cn/xsxk/a/b", "../c").unwrap();
    assert_eq!(joined.path, "/xsxk/c");
    assert_eq!(joined.host.as_deref(), Some("xk.neusoft.edu.cn"));
}

#[test]
fn too_many_redirects_are_refused() {
    assert_eq!(redirect_action(10, Some("https://a"), Some("https://a")), RedirectAction::TooMany);
}

#[test]
fn server_error_names_the_status() {
    let error = send_checked("课程列表", "https://xk.neusoft.edu.cn/xsxk/x", None, 500).unwrap_err();
    assert_eq!(error.message(), "课程列表返回错误状态：HTTP 500");
    assert!(send_checked("课程列表", "not a url", None, 200).is_err());
}

#[test]
fn cookie_header_injection_is_rejected_without_leaking_values() {
    for value in ["TEST_SECRET; Domain=evil.test", "TEST_SECRET\r\nOther: x", "TEST_SECRET\"value"] {
        let error = session_headers(&[cookie("vpn", value, "/")]).err().unwrap();
        assert!(!error.report().contains("TEST_SECRET"));
    }
    for path in ["/; Domain=evil.test", "not-a-path", "/\n"] {
        assert!(session_headers(&[cookie("vpn", "dummy", path)]).is_err());
    }
}

#[test]
fn cookie_header_keeps_path_and_omits_domain() {
    let header = cookie("restricted", "dummy", "/xsxk/auth").header().ok().unwrap();
    assert_eq!(header, "restricted=dummy; Path=/xsxk/auth; Secure; HttpOnly");
}

#[test]
fn refused_session_leaves_the_store_unchanged() {
    let mut store = SessionStore::new();
    assert!(install_session(&mut store, vec![cookie("vpn_session", "dummy-vpn", "/")]).is_ok());
    assert_eq!(store.cookies.len(), 1);
    let error = install_session(&mut store, vec![cookie("bad name", "x", "/")]).unwrap_err();
    assert_eq!(error.message(), "授权会话数据格式无效");
    assert_eq!(store.cookies.len(), 1);
    assert_eq!(store.cookies[0].name, "vpn_session");
    let many: Vec<SessionCookie> = (0..129).map(|i| cookie(&format!("c{i}"), "v", "/")).collect();
    assert_eq!(install_session(&mut store, many).unwrap_err().message(), "授权会话数据过多");
}

#[test]
fn non_json_answers_are_judged() {
    let vpn = json_response("选课接口", "200", "text/html", "<a href=\"https://vpn.neuedu.com\">", Err("expected value".to_owned()));
    let vpn = vpn.unwrap_err();
    assert_eq!(vpn.kind, FailureKind::VpnRequired);
    assert_eq!(vpn.message(), VPN_GUIDANCE);
    let expired = json_response("选课接口", "200", "text/html", "<script>loginVue.loginForm.aesKey = \"k\"</script>", Err("x".to_owned()));
    assert_eq!(expired.unwrap_err().kind, FailureKind::SessionExpired);
    let other = json_response("选课接口", "200", "text/html", "oops", Err("expected value".to_owned())).unwrap_err();
    assert_eq!(other.message(), "选课接口未返回 JSON：HTTP 200，Content-Type=text/html，expected value；请检查校园网/VPN连接");
    let ok = json_response("选课接口", "200", "application/json", "{}", Ok(JsonValue::Bool(true)));
    assert!(matches!(ok, Ok(JsonValue::Bool(true))));
}

#[test]
fn imported_vpn_cookie_survives_adding_course_authorization() {
    let jar = session_jar(&[cookie("vpn_session", "dummy-vpn", "/")]).unwrap();
    add_session_cookie(&jar, &cookie("Authorization", "dummy-course", "/")).unwrap();
    let header = jar.cookies(&Url::parse(XK_LOGIN).unwrap()).unwrap();
    let header = header.to_str().unwrap();
    assert!(header.contains("vpn_session=dummy-vpn"));
    assert!(header.contains("Authorization=dummy-course"));
    for address in ["https://vpn.neuedu.com/", "https://other.neusoft.edu.cn/", "http://xk.neusoft.edu.cn/"] {
        assert!(jar.cookies(&Url::parse(address).unwrap()).is_none());
    }
}

#[test]
fn imported_cookie_path_is_preserved() {
    let jar = session_jar(&[cookie("restricted", "dummy", "/xsxk/auth")]).unwrap();
    assert!(jar.cookies(&Url::parse(&format!("{XK_ORIGIN}/xsxk/auth/captcha")).unwrap()).is_some());
    assert!(jar.cookies(&Url::parse(XK_LOGIN).unwrap()).is_none());
}

#[test]
fn jar_refuses_what_the_store_refuses() {
    assert_eq!(session_jar(&[cookie("a b", "x", "/")]).unwrap_err().message(), "授权会话数据格式无效");
    let jar = session_jar(&[]).unwrap();
    assert_eq!(
        add_session_cookie(&jar, &cookie("ok", "x;y", "/")).unwrap_err().message(),
        "授权会话数据格式无效"
    );
}
