use xk_rust::network::VpnRequired;
use xk_rust::vpn_auth::authorized_check;
use xk_rust::network::UrlParts;
use xk_rust::vpn_auth::{allowed_url, is_xk_url};
use xk_rust::network::{SessionCookie, XK_LOGIN};
use xk_rust::vpn_auth::{
    allowed_navigation, authorize, decode_reply, export_requested, hello_ok, is_xk_page, reply_for, AuthReply,
    CHANNEL_HELLO, MAX_REPLY,
};
use xk_rust::failure::Failure;

#[test]
fn only_school_https_navigation_is_allowed() {
    assert!(allowed_navigation(XK_LOGIN));
    assert!(allowed_navigation("https://vpn.neuedu.com:4443/controller/v1/public/verify"));
    assert!(allowed_navigation("https://cas.neusoft.edu.cn/login"));
    for url in [
        "http://xk.neusoft.edu.cn/",
        "https://vpn.neuedu.com.evil.test/",
        "file:///C:/data",
        "https://user@xk.neusoft.edu.cn/",
    ] {
        assert!(!allowed_navigation(url));
    }
}

#[test]
fn ipc_cannot_export_from_vpn_or_foreign_origin() {
    assert!(is_xk_page(XK_LOGIN));
    for url in [
        "https://vpn.neuedu.com/xsxk/",
        "https://xk.neusoft.edu.cn:4443/xsxk/",
        "http://xk.neusoft.edu.cn/xsxk/",
        "https://xk.neusoft.edu.cn.evil.test/xsxk/",
    ] {
        assert!(!is_xk_page(url));
    }
}

#[test]
fn invalid_reply_does_not_echo_secrets() {
    let bytes = b"TEST_SECRET invalid json";
    let message = decode_reply(bytes.len(), None).err().unwrap().message();
    assert!(!message.contains("TEST_SECRET"));
    let large = vec![b'x'; MAX_REPLY as usize + 1];
    assert!(decode_reply(large.len(), None).is_err());
}

#[test]
fn reply_outcomes() {
    let cookie = SessionCookie { name: "a".to_owned(), value: "b".to_owned(), path: "/".to_owned() };
    let ok = decode_reply(10, Some(AuthReply { cookies: Some(vec![cookie.clone()]), error: None })).ok().unwrap();
    assert_eq!(ok.len(), 1);
    let cancelled = decode_reply(10, Some(AuthReply { cookies: None, error: None })).err().unwrap();
    assert_eq!(cancelled.message(), "VPN 授权已取消");
    let said = decode_reply(10, Some(AuthReply { cookies: None, error: Some("窗口关闭".to_owned()) })).err().unwrap();
    assert_eq!(said.message(), "窗口关闭");
    let too_big = decode_reply(MAX_REPLY as usize + 1, Some(AuthReply { cookies: Some(vec![cookie]), error: None }));
    assert_eq!(too_big.err().unwrap().message(), "授权窗口返回数据过大");
    let bad = SessionCookie { name: "a".to_owned(), value: "x;y".to_owned(), path: "/".to_owned() };
    assert!(decode_reply(10, Some(AuthReply { cookies: Some(vec![bad]), error: None })).is_err());
}

#[test]
fn helper_reply_carries_the_outer_message() {
    let reply = reply_for(Err(Failure::msg("原因").context("无法启动".to_owned())));
    assert!(reply.cookies.is_none());
    assert_eq!(reply.error.as_deref(), Some("无法启动"));
    let reply = reply_for(Ok(Vec::new()));
    assert!(reply.cookies.is_some() && reply.error.is_none());
}

#[test]
fn helper_checks_the_greeting() {
    assert!(hello_ok(CHANNEL_HELLO.as_bytes()));
    assert!(!hello_ok(b"DNUI_VPN_AUTH_V2\n"));
    assert!(!hello_ok(b""));
}

#[test]
fn export_only_on_request_from_the_elective_site() {
    assert!(export_requested("dnui-complete-vpn-auth", XK_LOGIN));
    assert!(!export_requested("other", XK_LOGIN));
    assert!(!export_requested("dnui-complete-vpn-auth", "https://vpn.neuedu.com/xsxk/"));
}

#[test]
fn sign_in_window_is_not_available_here() {
    assert_eq!(
        authorize().err().unwrap().message(),
        "当前平台暂不支持内置 VPN 授权窗口，请使用校园网或系统 VPN 隧道"
    );
}

#[test]
fn exported_cookies_are_unique_and_ordered() {
    let c = |name: &str, value: &str, path: &str| SessionCookie {
        name: name.to_owned(),
        value: value.to_owned(),
        path: path.to_owned(),
    };
    let found = vec![c("b", "1", "/"), c("a", "x", "/p"), c("b", "2", "/"), c("a", "y", "/")];
    let kept = xk_rust::vpn_auth::collect_cookies(&found);
    let seen: Vec<(String, String, String)> = kept.into_iter().map(|k| (k.name, k.value, k.path)).collect();
    assert_eq!(
        seen,
        vec![
            ("a".to_owned(), "y".to_owned(), "/".to_owned()),
            ("a".to_owned(), "x".to_owned(), "/p".to_owned()),
            ("b".to_owned(), "2".to_owned(), "/".to_owned()),
        ]
    );
}

#[test]
fn check_after_sign_in_explains_a_remaining_refusal() {
    let refused = authorized_check(Err(VpnRequired.into_failure())).unwrap_err();
    assert!(refused.message().starts_with("授权窗口已经返回，但桌面程序仍被 VPN 网关要求验证"));
    assert!(!refused.is_vpn_required());
    let other = authorized_check(Err(Failure::msg("HTTP 500"))).unwrap_err();
    assert_eq!(other.report(), "授权后的接口检测未通过: HTTP 500");
    assert!(authorized_check(Ok(())).is_ok());
}

#[test]
fn parsed_addresses_are_judged_alike() {
    let page = UrlParts::parse("https://xk.neusoft.edu.cn/xsxk/elective/user").unwrap();
    assert!(is_xk_url(&page));
    assert!(allowed_url(&page));
    let other = UrlParts::parse("https://example.com/xsxk/").unwrap();
    assert!(!is_xk_url(&other));
    assert!(!allowed_url(&other));
}
