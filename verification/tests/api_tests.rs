use xk_rust::api::{aes_key_choice, menu_text_choice};
use xk_rust::api::{menu_list_text, teaching_class_type};
use xk_rust::api::{
    aes_key_from_profile, campus_from_bind, captcha_challenge, clazz_form, code, is_captcha_error, message,
    response_message, CourseFetch, FetchAction, LoginAction, LoginEvent, LoginFlow, DEFAULT_AES_KEY,
};
use xk_rust::codec::{captcha_answer, decode_data_url, encode_base64, encrypt_password};
use xk_rust::failure::Failure;
use xk_rust::json::JsonValue;
use xk_rust::model::Course;

fn obj(pairs: Vec<(&str, JsonValue)>) -> JsonValue {
    JsonValue::Object(pairs.into_iter().map(|(k, v)| (k.to_owned(), v)).collect())
}

fn s(text: &str) -> JsonValue {
    JsonValue::text(text)
}

#[test]
fn password_encryption_matches_python_version() {
    assert_eq!(encrypt_password("hello", DEFAULT_AES_KEY).ok().unwrap(), "zTB/3Oiwdhio9uX5c1PYEA==");
}

#[test]
fn short_key_is_refused() {
    assert_eq!(
        encrypt_password("hello", "short").err().unwrap().message(),
        "AES 密钥长度异常：5，预期 16"
    );
}

#[test]
fn base64_round_trip_of_a_data_url() {
    assert_eq!(encode_base64(b"hi!"), "aGkh");
    assert_eq!(decode_data_url("data:image/png;base64,aGkh").ok().unwrap(), b"hi!".to_vec());
    assert_eq!(decode_data_url("aGkh").ok().unwrap(), b"hi!".to_vec());
    assert!(decode_data_url("data:image/png;base64,@@").is_err());
}

#[test]
fn captcha_answer_keeps_letters_and_digits() {
    assert_eq!(captcha_answer(" a1-B2 c3d4e5 ").ok().unwrap(), "a1B2c3d4");
    assert!(captcha_answer("--").is_err());
}

#[test]
fn answers_give_code_and_message() {
    let body = obj(vec![("code", JsonValue::integer(403)), ("message", s("禁止"))]);
    assert_eq!(code(&body), 403);
    assert_eq!(message(&body), "禁止");
    assert_eq!(message(&obj(vec![])), "未知错误");
    assert_eq!(response_message(&obj(vec![])), "未知响应");
    assert_eq!(code(&obj(vec![("code", s("200"))])), 0);
}

#[test]
fn aes_key_is_read_from_the_login_page() {
    let html = "<script>loginVue.loginForm.aesKey = \"ABCDEFGHIJKLMNOP\";</script>";
    assert_eq!(aes_key_from_profile(html).ok().unwrap(), "ABCDEFGHIJKLMNOP");
    assert_eq!(aes_key_from_profile("<html></html>").ok().unwrap(), DEFAULT_AES_KEY);
}

#[test]
fn captcha_answer_of_the_server_is_checked() {
    let ok = obj(vec![("code", JsonValue::integer(200)), ("data", obj(vec![("captcha", s("img")), ("uuid", s("u1"))]))]);
    assert_eq!(captcha_challenge(&ok).ok().unwrap(), ("img".to_owned(), "u1".to_owned()));
    let missing = obj(vec![("code", JsonValue::integer(200)), ("data", obj(vec![("captcha", s("img"))]))]);
    assert_eq!(captcha_challenge(&missing).err().unwrap().message(), "验证码接口返回不完整");
}

#[test]
fn campus_defaults_to_one() {
    let ok = obj(vec![("code", JsonValue::integer(200))]);
    assert_eq!(campus_from_bind(&ok).ok().unwrap(), "1");
    let refused = obj(vec![("code", JsonValue::integer(500)), ("msg", s("不在时间内"))]);
    assert_eq!(campus_from_bind(&refused).err().unwrap().message(), "选择轮次失败：不在时间内");
}

#[test]
fn selection_form_names_the_class() {
    let course = Course { raw: obj(vec![("JXBID", s("J1")), ("secretVal", s("S"))]) };
    let form = clazz_form("TJKC", &course);
    assert_eq!(
        form,
        vec![
            ("clazzType".to_owned(), "TJKC".to_owned()),
            ("clazzId".to_owned(), "J1".to_owned()),
            ("secretVal".to_owned(), "S".to_owned()),
        ]
    );
}

#[test]
fn login_retries_a_wrong_captcha_at_most_the_given_times() {
    assert!(is_captcha_error("验证码错误"));
    let (mut flow, first) = LoginFlow::start("2023", "hello", 2);
    assert!(matches!(first, LoginAction::FetchProfile));
    let step = flow.step(LoginEvent::Profile(Ok("<html></html>".to_owned())));
    assert!(matches!(step, LoginAction::RequestCaptcha));
    assert_eq!(flow.encrypted, "zTB/3Oiwdhio9uX5c1PYEA==");
    let challenge = obj(vec![("code", JsonValue::integer(200)), ("data", obj(vec![("captcha", s("img")), ("uuid", s("u1"))]))]);
    assert!(matches!(flow.step(LoginEvent::Captcha(Ok(challenge.duplicate()))), LoginAction::Recognize(_)));
    match flow.step(LoginEvent::Answer(Ok("ab12".to_owned()))) {
        LoginAction::Submit(form) => assert_eq!(form[2], ("captcha".to_owned(), "ab12".to_owned())),
        _ => panic!("expected the login form"),
    }
    let wrong = obj(vec![("code", JsonValue::integer(500)), ("msg", s("验证码错误"))]);
    assert!(matches!(flow.step(LoginEvent::Reply(Ok(wrong.duplicate()))), LoginAction::RequestCaptcha));
    flow.step(LoginEvent::Captcha(Ok(challenge)));
    flow.step(LoginEvent::Answer(Ok("cd34".to_owned())));
    match flow.step(LoginEvent::Reply(Ok(wrong))) {
        LoginAction::Finished(Err(e)) => assert_eq!(e.message(), "登录失败：验证码错误"),
        _ => panic!("the second wrong captcha ends the login"),
    }
}

#[test]
fn login_with_token_and_batches_is_granted() {
    let (mut flow, _) = LoginFlow::start("2023", "hello", 5);
    flow.step(LoginEvent::Profile(Ok(String::new())));
    let challenge = obj(vec![("code", JsonValue::integer(200)), ("data", obj(vec![("captcha", s("img")), ("uuid", s("u"))]))]);
    flow.step(LoginEvent::Captcha(Ok(challenge)));
    flow.step(LoginEvent::Answer(Ok("x".to_owned())));
    let batch = obj(vec![("code", s("B1")), ("name", s("第一轮")), ("canSelect", s("1"))]);
    let student = obj(vec![("electiveBatchList", JsonValue::Array(vec![batch]))]);
    let body = obj(vec![
        ("code", JsonValue::integer(200)),
        ("data", obj(vec![("token", s("T")), ("student", student)])),
    ]);
    match flow.step(LoginEvent::Reply(Ok(body))) {
        LoginAction::Finished(Ok(grant)) => {
            assert_eq!(grant.token, "T");
            assert_eq!(grant.batches.len(), 1);
            assert_eq!(grant.batches[0].group, "普通轮次");
        }
        _ => panic!("expected a grant"),
    }
}

#[test]
fn a_transport_failure_ends_the_login() {
    let (mut flow, _) = LoginFlow::start("2023", "hello", 5);
    match flow.step(LoginEvent::Profile(Err(Failure::msg("登录页请求失败")))) {
        LoginAction::Finished(Err(e)) => assert_eq!(e.message(), "登录页请求失败"),
        _ => panic!("expected the end"),
    }
}

#[test]
fn course_list_pages_until_the_announced_total() {
    let (mut fetch, first) = CourseFetch::start("TJKC", "1", 2, 0, 1, 100, false);
    match first {
        FetchAction::Post { page, payload, heartbeat_first, delay_ms } => {
            assert_eq!(page, 1);
            assert!(!heartbeat_first && delay_ms == 0);
            assert_eq!(payload.get("teachingClassType").and_then(|v| v.as_str()).map(|s| s.as_str()), Some("TJKC"));
            assert!(payload.get("SFYM").is_none());
        }
        _ => panic!("expected the first page"),
    }
    let row = |id: &str| obj(vec![("JXBID", s(id))]);
    let forbidden = obj(vec![("code", JsonValue::integer(403)), ("msg", s("频繁"))]);
    match fetch.step(Ok(forbidden)) {
        FetchAction::Post { page, heartbeat_first, delay_ms, .. } => {
            assert_eq!(page, 1);
            assert!(heartbeat_first);
            assert_eq!(delay_ms, 100);
        }
        _ => panic!("a 403 is retried"),
    }
    let page1 = obj(vec![
        ("code", JsonValue::integer(200)),
        ("data", obj(vec![("total", JsonValue::integer(3)), ("rows", JsonValue::Array(vec![row("A"), row("B")]))])),
    ]);
    match fetch.step(Ok(page1)) {
        FetchAction::Post { page, delay_ms, .. } => {
            assert_eq!(page, 2);
            assert_eq!(delay_ms, 1_500);
        }
        _ => panic!("expected the second page"),
    }
    let page2 = obj(vec![
        ("code", JsonValue::integer(200)),
        ("data", obj(vec![("rows", JsonValue::Array(vec![row("C")]))])),
    ]);
    match fetch.step(Ok(page2)) {
        FetchAction::Finished(Ok((courses, n))) => {
            assert_eq!(n, 3);
            assert_eq!(courses[2].id(), "C");
        }
        _ => panic!("the list is complete"),
    }
}

#[test]
fn a_second_403_after_the_retries_fails_the_list() {
    let (mut fetch, _) = CourseFetch::start("TJKC", "1", 100, 0, 0, 100, true);
    let forbidden = obj(vec![("code", JsonValue::integer(403)), ("msg", s("频繁"))]);
    match fetch.step(Ok(forbidden)) {
        FetchAction::Finished(Err(e)) => assert_eq!(e.message(), "课程列表第 1 页失败：频繁"),
        _ => panic!("no retry is left"),
    }
}

#[test]
fn pattern_results_become_keys_and_menus() {
    assert_eq!(aes_key_choice(Ok(Some("K".to_owned()))).ok().unwrap(), "K");
    assert_eq!(aes_key_choice(Ok(None)).ok().unwrap(), DEFAULT_AES_KEY);
    assert_eq!(aes_key_choice(Err("bad pattern".to_owned())).err().unwrap().message(), "bad pattern");
    assert_eq!(menu_text_choice(Ok(Some("[]".to_owned()))).ok().unwrap(), "[]");
    assert_eq!(menu_text_choice(Ok(None)).err().unwrap().message(), "未能从选课页面识别课程类型");
}

#[test]
fn menus_name_the_class_type() {
    let html = "<script>grablessonsVue.menuData.menuList = [{\"teachingClassType\":\"YXKC\"},{\"teachingClassType\":\"TJKC\"}];</script>";
    assert_eq!(menu_list_text(html).ok().unwrap(), "[{\"teachingClassType\":\"YXKC\"},{\"teachingClassType\":\"TJKC\"}]");
    let menus = vec![
        obj(vec![("teachingClassType", s("YXKC"))]),
        obj(vec![("teachingClassType", s("ALLKC"))]),
        obj(vec![("teachingClassType", s("FAWKC"))]),
    ];
    assert_eq!(teaching_class_type(Ok(menus)).ok().unwrap(), "FAWKC");
    assert!(teaching_class_type(Ok(vec![obj(vec![("teachingClassType", s("YXKC"))])])).is_err());
}
