//! The elective system's answers and the decisions taken on them: reading
//! codes and messages, the login conversation, entering a batch, finding the
//! course menu and paging through the course list.
use vstd::prelude::*;
use crate::codec::{encrypt_password, utf8_len, aes128_ecb_pkcs7, base64_spec, key_length_message};
use crate::failure::{simple_failure, Failure, FailureKind, FailureView};
use crate::json::{entries_view, get_in, str_in, items_view, lemma_items_view, JsonNumber, JsonValue, JsonView};
use crate::model::{batch_from_view, first_text, id_keys, secret_keys, Batch, BatchView, Course, expand_spec, text_is_empty};
use crate::text::{append_str, contains_seq, int_decimal, lowercase, owned, str_contains, str_eq, to_lowercase, decimal_of_u128, opt_view};

verus! {

// ---------------------------------------------------------------------------
// Codes and messages
// ---------------------------------------------------------------------------

/// The `code` member as an integer, else 0.
pub open spec fn code_spec(v: JsonView) -> i64 {
    match v.get("code"@) {
        Some(c) => match c.as_i64() {
            Some(n) => n,
            None => 0,
        },
        None => 0,
    }
}

/// The `msg` member (or, where there is none, `message`) if it is a
/// string; `fallback` otherwise.
pub open spec fn message_or(v: JsonView, fallback: Seq<char>) -> Seq<char> {
    let m = match v.get("msg"@) {
        Some(x) => Some(x),
        None => v.get("message"@),
    };
    match str_in(m) {
        Some(s) => s,
        None => fallback,
    }
}

pub open spec fn message_spec(v: JsonView) -> Seq<char> {
    message_or(v, "未知错误"@)
}

/// The business code of an answer.
pub fn code(value: &JsonValue) -> (r: i64)
    ensures
        r == code_spec(value@),
{
    match value.get("code") {
        Some(c) => match c.as_i64() {
            Some(n) => n,
            None => 0,
        },
        None => 0,
    }
}

fn message_with(value: &JsonValue, fallback: &str) -> (r: String)
    ensures
        r@ == message_or(value@, fallback@),
{
    let m = match value.get("msg") {
        Some(x) => Some(x),
        None => value.get("message"),
    };
    match m {
        Some(x) => match x.as_str() {
            Some(s) => s.clone(),
            None => owned(fallback),
        },
        None => owned(fallback),
    }
}

/// The message of an answer, `未知错误` where it has none.
pub fn message(value: &JsonValue) -> (r: String)
    ensures
        r@ == message_spec(value@),
{
    message_with(value, "未知错误")
}

/// The message of a selection answer, `未知响应` where it has none.
pub fn response_message(body: &JsonValue) -> (r: String)
    ensures
        r@ == message_or(body@, "未知响应"@),
{
    message_with(body, "未知响应")
}

/// `prefix` followed by `rest`, as a failure.
fn failure_with(prefix: &str, rest: &str) -> (r: Failure)
    ensures
        r@ == simple_failure(FailureKind::Other, prefix@ + rest@),
{
    let mut m = owned(prefix);
    append_str(&mut m, rest);
    Failure::of_kind(FailureKind::Other, m)
}

// ---------------------------------------------------------------------------
// Patterns in pages
// ---------------------------------------------------------------------------

/// What the `regex` crate finds for capture group 1 of `pattern` in
/// `text`: `None` where the pattern does not compile, `Some(None)` where
/// there is no match (or the group took no part).
pub uninterp spec fn regex_group1(pattern: Seq<char>, text: Seq<char>) -> Option<Option<Seq<char>>>;

/// Wraps `regex::Regex::new`, `Regex::captures` and `Captures::get(1)`: the
/// text of group 1 of the first match; the crate's message where the
/// pattern does not compile.
#[verifier::external_body]
fn first_group(pattern: &str, text: &str) -> (r: Result<Option<String>, String>)
    ensures
        match r {
            Ok(c) => regex_group1(pattern@, text@) == Some(opt_view(c)),
            Err(_) => regex_group1(pattern@, text@) is None,
        },
{
    let re = match regex::Regex::new(pattern) {
        Ok(re) => re,
        Err(e) => return Err(e.to_string()),
    };
    match re.captures(text) {
        Some(caps) => match caps.get(1) {
            Some(m) => Ok(Some(m.as_str().to_string())),
            None => Ok(None),
        },
        None => Ok(None),
    }
}

/// The key the login page uses when it names none.
pub const DEFAULT_AES_KEY: &'static str = "MWMqg2tPcDkxcm11";
/// Where the login page names its AES key.
pub const AES_KEY_PATTERN: &'static str = "loginVue\\.loginForm\\.aesKey\\s*=\\s*\"([^\"]+)\"";
/// Where the batch page lists its course menus.
pub const MENU_PATTERN: &'static str = "(?s)grablessonsVue\\.menuData\\.menuList\\s*=\\s*(\\[.*?\\])\\s*;";

/// The AES key that the login page sets, else the default key.
pub open spec fn aes_key_spec(html: Seq<char>) -> Option<Seq<char>> {
    match regex_group1(AES_KEY_PATTERN@, html) {
        Some(Some(k)) => Some(k),
        Some(None) => Some(DEFAULT_AES_KEY@),
        None => None,
    }
}

/// The AES key for the password given what the key pattern found on the
/// login page: the key, the default key where there was no match, or the
/// pattern's error.
pub fn aes_key_choice(found: Result<Option<String>, String>) -> (r: Result<String, Failure>)
    ensures
        match found {
            Ok(Some(k)) => r matches Ok(x) && x@ == k@,
            Ok(None) => r matches Ok(x) && x@ == DEFAULT_AES_KEY@,
            Err(m) => r matches Err(e) && e@ == simple_failure(FailureKind::Other, m@),
        },
{
    match found {
        Ok(Some(k)) => Ok(k),
        Ok(None) => Ok(owned(DEFAULT_AES_KEY)),
        Err(e) => Err(Failure::of_kind(FailureKind::Other, e)),
    }
}

/// The AES key for the password, read from the login page.
pub fn aes_key_from_profile(html: &str) -> (r: Result<String, Failure>)
    ensures
        match r {
            Ok(k) => aes_key_spec(html@) == Some(k@),
            Err(_) => aes_key_spec(html@) is None,
        },
{
    aes_key_choice(first_group(AES_KEY_PATTERN, html))
}

pub open spec fn menu_missing_message() -> Seq<char> {
    "未能从选课页面识别课程类型"@
}

/// The JSON text of the course menus given what the menu pattern found on
/// the batch page: the text, a message where there was no match, or the
/// pattern's error.
pub fn menu_text_choice(found: Result<Option<String>, String>) -> (r: Result<String, Failure>)
    ensures
        match found {
            Ok(Some(t)) => r matches Ok(x) && x@ == t@,
            Ok(None) => r matches Err(e) && e@ == simple_failure(FailureKind::Other, menu_missing_message()),
            Err(m) => r matches Err(e) && e@ == simple_failure(FailureKind::Other, m@),
        },
{
    match found {
        Ok(Some(t)) => Ok(t),
        Ok(None) => Err(Failure::msg("未能从选课页面识别课程类型")),
        Err(e) => Err(Failure::of_kind(FailureKind::Other, e)),
    }
}

/// The JSON text of the course menus on a batch page.
pub fn menu_list_text(html: &str) -> (r: Result<String, Failure>)
    ensures
        match r {
            Ok(t) => regex_group1(MENU_PATTERN@, html@) == Some(Some(t@)),
            Err(e) => match regex_group1(MENU_PATTERN@, html@) {
                Some(Some(_)) => false,
                Some(None) => e@ == simple_failure(FailureKind::Other, menu_missing_message()),
                None => true,
            },
        },
{
    menu_text_choice(first_group(MENU_PATTERN, html))
}

/// The first menu's class type that is neither the enrolled list (`YXKC`)
/// nor the all-courses list (`ALLKC`).
pub open spec fn menu_type(menus: Seq<JsonView>) -> Option<Seq<char>>
    decreases menus.len(),
{
    if menus.len() == 0 {
        None
    } else {
        match str_in(menus[0].get("teachingClassType"@)) {
            Some(t) => if t != "YXKC"@ && t != "ALLKC"@ { Some(t) } else { menu_type(menus.drop_first()) },
            None => menu_type(menus.drop_first()),
        }
    }
}

pub open spec fn no_menu_message() -> Seq<char> {
    "该轮次没有可抓取的课程菜单"@
}

pub open spec fn menu_parse_message() -> Seq<char> {
    "课程菜单解析失败"@
}

/// The teaching-class type to fetch, from the parsed menu list.
pub fn teaching_class_type(menus: Result<Vec<JsonValue>, String>) -> (r: Result<String, Failure>)
    ensures
        match menus {
            Ok(items) => match menu_type(items_view(items@)) {
                Some(t) => r is Ok && r->Ok_0@ == t,
                None => r is Err && r->Err_0@ == simple_failure(FailureKind::Other, no_menu_message()),
            },
            Err(detail) => r is Err && r->Err_0@.messages == seq![menu_parse_message(), detail@],
        },
{
    let items = match menus {
        Ok(items) => items,
        Err(detail) => return Err(Failure::of_kind(FailureKind::Other, detail).context(owned("课程菜单解析失败"))),
    };
    proof { lemma_items_view(items@); }
    let ghost model = items_view(items@);
    let mut i: usize = 0;
    assert(model.skip(0) == model);
    while i < items.len()
        invariant
            i <= items.len(),
            model == items_view(items@),
            model.len() == items.len(),
            forall|k: int| 0 <= k < items.len() ==> #[trigger] model[k] == items@[k]@,
            menu_type(model) == menu_type(model.skip(i as int)),
            menus == Ok::<Vec<JsonValue>, String>(items),
        decreases items.len() - i,
    {
        assert(model.skip(i as int).drop_first() == model.skip(i + 1));
        assert(model.skip(i as int)[0] == model[i as int]);
        let kind = match items[i].get("teachingClassType") {
            Some(v) => v.as_str(),
            None => None,
        };
        if let Some(t) = kind {
            if !str_eq(t.as_str(), "YXKC") && !str_eq(t.as_str(), "ALLKC") {
                return Ok(t.clone());
            }
        }
        i += 1;
    }
    Err(Failure::msg("该轮次没有可抓取的课程菜单"))
}

// ---------------------------------------------------------------------------
// Reading answers
// ---------------------------------------------------------------------------

/// The text at `outer`/`inner`, or the empty text.
pub open spec fn text_at(v: JsonView, outer: Seq<char>, inner: Seq<char>) -> Seq<char> {
    match str_in(get_in(v.get(outer), inner)) {
        Some(s) => s,
        None => Seq::empty(),
    }
}

fn read_text_at(v: &JsonValue, outer: &str, inner: &str) -> (r: String)
    ensures
        r@ == text_at(v@, outer@, inner@),
{
    let found = match v.get(outer) {
        Some(x) => match x.get(inner) {
            Some(y) => y.as_str(),
            None => None,
        },
        None => None,
    };
    match found {
        Some(s) => s.clone(),
        None => String::new(),
    }
}

pub open spec fn captcha_incomplete_message() -> Seq<char> {
    "验证码接口返回不完整"@
}

/// What the captcha answer asks: the image and the challenge id; an error
/// where the code is not 200 or either is missing.
pub open spec fn captcha_spec(body: JsonView) -> Result<(Seq<char>, Seq<char>), FailureView> {
    if code_spec(body) != 200 {
        Err(simple_failure(FailureKind::Other, "验证码接口失败："@ + message_spec(body)))
    } else if text_at(body, "data"@, "captcha"@).len() == 0 || text_at(body, "data"@, "uuid"@).len() == 0 {
        Err(simple_failure(FailureKind::Other, captcha_incomplete_message()))
    } else {
        Ok((text_at(body, "data"@, "captcha"@), text_at(body, "data"@, "uuid"@)))
    }
}

/// The captcha image and its challenge id.
pub fn captcha_challenge(body: &JsonValue) -> (r: Result<(String, String), Failure>)
    ensures
        match r {
            Ok((image, uuid)) => captcha_spec(body@) == Ok::<(Seq<char>, Seq<char>), FailureView>((image@, uuid@)),
            Err(e) => captcha_spec(body@) == Err::<(Seq<char>, Seq<char>), FailureView>(e@),
        },
{
    if code(body) != 200 {
        let m = message(body);
        return Err(failure_with("验证码接口失败：", m.as_str()));
    }
    let image = read_text_at(body, "data", "captcha");
    let uuid = read_text_at(body, "data", "uuid");
    if text_is_empty(&image) || text_is_empty(&uuid) {
        return Err(Failure::msg("验证码接口返回不完整"));
    }
    Ok((image, uuid))
}

pub open spec fn network_check_message() -> Seq<char> {
    "网络检测未通过：选课验证码接口未返回有效数据，请检查校园网/VPN后重试"@
}

/// The network probe passes where the captcha answer is a 200 with an image.
pub fn network_check(body: &JsonValue) -> (r: Result<(), Failure>)
    ensures
        match r {
            Ok(()) => code_spec(body@) == 200 && text_at(body@, "data"@, "captcha"@).len() > 0,
            Err(e) => !(code_spec(body@) == 200 && text_at(body@, "data"@, "captcha"@).len() > 0)
                && e@ == simple_failure(FailureKind::Other, network_check_message()),
        },
{
    let image = read_text_at(body, "data", "captcha");
    if code(body) != 200 || text_is_empty(&image) {
        return Err(Failure::msg("网络检测未通过：选课验证码接口未返回有效数据，请检查校园网/VPN后重试"));
    }
    Ok(())
}

/// The campus of the student after entering a batch: `data.student.campus`,
/// `1` where it is not given.
pub open spec fn campus_spec(body: JsonView) -> Seq<char> {
    match str_in(get_in(get_in(body.get("data"@), "student"@), "campus"@)) {
        Some(s) => s,
        None => "1"@,
    }
}

/// The campus from the answer to entering a batch; an error where the
/// code is not 200.
pub fn campus_from_bind(body: &JsonValue) -> (r: Result<String, Failure>)
    ensures
        match r {
            Ok(c) => code_spec(body@) == 200 && c@ == campus_spec(body@),
            Err(e) => code_spec(body@) != 200 && e@ == simple_failure(FailureKind::Other, "选择轮次失败："@ + message_spec(body@)),
        },
{
    if code(body) != 200 {
        let m = message(body);
        return Err(failure_with("选择轮次失败：", m.as_str()));
    }
    let found = match body.get("data") {
        Some(d) => match d.get("student") {
            Some(s) => match s.get("campus") {
                Some(c) => c.as_str(),
                None => None,
            },
            None => None,
        },
        None => None,
    };
    match found {
        Some(c) => Ok(c.clone()),
        None => Ok(owned("1")),
    }
}

/// The batches of one list, in order, each marked with `group`.
pub open spec fn batch_list(items: Seq<JsonView>, group: Seq<char>) -> Seq<BatchView>
    decreases items.len(),
{
    if items.len() == 0 {
        Seq::empty()
    } else {
        let rest = batch_list(items.drop_last(), group);
        match batch_from_view(items.last()) {
            Some(b) => rest.push(BatchView { group, ..b }),
            None => rest,
        }
    }
}

/// The array at `key`, else nothing.
pub open spec fn array_at(v: Option<JsonView>, key: Seq<char>) -> Seq<JsonView> {
    match get_in(v, key) {
        Some(JsonView::Array(items)) => items,
        _ => Seq::empty(),
    }
}

/// The batches that the login answer offers: the ordinary rounds, then the
/// laboratory rounds.
pub open spec fn login_batches_spec(student: Option<JsonView>) -> Seq<BatchView> {
    batch_list(array_at(student, "electiveBatchList"@), "普通轮次"@)
        + batch_list(array_at(student, "expElectiveBatchList"@), "实验课轮次"@)
}

proof fn lemma_batch_list_has(items: Seq<JsonView>, group: Seq<char>, k: int)
    requires
        0 <= k < items.len(),
        batch_from_view(items[k]) is Some,
    ensures
        batch_list(items, group).contains(BatchView { group, ..batch_from_view(items[k])->0 }),
    decreases items.len(),
{
    let rest = items.drop_last();
    let here = batch_list(items, group);
    let before = batch_list(rest, group);
    if k == items.len() - 1 {
        assert(here == before.push(BatchView { group, ..batch_from_view(items[k])->0 }));
        assert(here[here.len() - 1] == BatchView { group, ..batch_from_view(items[k])->0 });
    } else {
        assert(rest[k] == items[k]);
        lemma_batch_list_has(rest, group, k);
        let j = choose|j: int| 0 <= j < before.len() && before[j] == BatchView { group, ..batch_from_view(items[k])->0 };
        assert(here[j] == before[j]);
    }
}

/// The login offers every round that its answer lists and that reads as a
/// batch: each ordinary round in the group `普通轮次`, and each lab round in
/// the group `实验课轮次`, placed after all the ordinary ones.
pub proof fn lemma_login_offers_every_round(student: Option<JsonView>, k: int)
    ensures
        ({
            let ordinary = array_at(student, "electiveBatchList"@);
            0 <= k < ordinary.len() && batch_from_view(ordinary[k]) is Some ==> exists|j: int|
                0 <= j < login_batches_spec(student).len()
                && #[trigger] login_batches_spec(student)[j] == (BatchView { group: "普通轮次"@, ..batch_from_view(ordinary[k])->0 })
        }),
        ({
            let lab = array_at(student, "expElectiveBatchList"@);
            0 <= k < lab.len() && batch_from_view(lab[k]) is Some ==> exists|j: int|
                batch_list(array_at(student, "electiveBatchList"@), "普通轮次"@).len() <= j < login_batches_spec(student).len()
                && #[trigger] login_batches_spec(student)[j] == (BatchView { group: "实验课轮次"@, ..batch_from_view(lab[k])->0 })
        }),
{
    let ordinary = array_at(student, "electiveBatchList"@);
    let lab = array_at(student, "expElectiveBatchList"@);
    let first = batch_list(ordinary, "普通轮次"@);
    let second = batch_list(lab, "实验课轮次"@);
    let all = login_batches_spec(student);
    assert(all == first + second);
    if 0 <= k < ordinary.len() && batch_from_view(ordinary[k]) is Some {
        lemma_batch_list_has(ordinary, "普通轮次"@, k);
        let b = BatchView { group: "普通轮次"@, ..batch_from_view(ordinary[k])->0 };
        let j = choose|j: int| 0 <= j < first.len() && first[j] == b;
        assert(all[j] == first[j]);
    }
    if 0 <= k < lab.len() && batch_from_view(lab[k]) is Some {
        lemma_batch_list_has(lab, "实验课轮次"@, k);
        let b = BatchView { group: "实验课轮次"@, ..batch_from_view(lab[k])->0 };
        let j = choose|j: int| 0 <= j < second.len() && second[j] == b;
        assert(all[first.len() + j] == second[j]);
    }
}

fn collect_batches(student: Option<&JsonValue>, field: &str, group: &str, out: &mut Vec<Batch>)
    ensures
        final(out)@.map_values(|b: Batch| b@) == old(out)@.map_values(|b: Batch| b@)
            + batch_list(array_at(match student { Some(s) => Some(s@), None => None }, field@), group@),
{
    let list = match student {
        Some(s) => match s.get(field) {
            Some(v) => v.as_array(),
            None => None,
        },
        None => None,
    };
    let ghost start = out@.map_values(|b: Batch| b@);
    if let Some(items) = list {
        proof { lemma_items_view(items@); }
        let ghost model = items_view(items@);
        let mut i: usize = 0;
        while i < items.len()
            invariant
                i <= items.len(),
                model == items_view(items@),
                model.len() == items.len(),
                forall|k: int| 0 <= k < items.len() ==> #[trigger] model[k] == items@[k]@,
                out@.map_values(|b: Batch| b@) == start + batch_list(model.take(i as int), group@),
            decreases items.len() - i,
        {
            proof {
                assert(model.take(i + 1).drop_last() == model.take(i as int));
                assert(model.take(i + 1).last() == items@[i as int]@);
            }
            if let Some(mut b) = Batch::from_json(&items[i]) {
                b.group = owned(group);
                let ghost before = out@;
                out.push(b);
                assert(out@.map_values(|b: Batch| b@) =~= before.map_values(|b: Batch| b@).push(b@));
            }
            i += 1;
        }
        assert(model.take(items.len() as int) == model);
    } else {
        assert(out@.map_values(|b: Batch| b@) =~= start + Seq::<BatchView>::empty());
    }
}

/// The batches a successful login offers.
pub fn login_batches(student: Option<&JsonValue>) -> (r: Vec<Batch>)
    ensures
        r@.map_values(|b: Batch| b@) == login_batches_spec(match student { Some(s) => Some(s@), None => None }),
{
    let mut out: Vec<Batch> = Vec::new();
    collect_batches(student, "electiveBatchList", "普通轮次", &mut out);
    collect_batches(student, "expElectiveBatchList", "实验课轮次", &mut out);
    assert(out@.map_values(|b: Batch| b@) =~= login_batches_spec(match student { Some(s) => Some(s@), None => None }));
    out
}

// ---------------------------------------------------------------------------
// The login conversation
// ---------------------------------------------------------------------------

/// A login token and the batches it may enter.
#[derive(Debug)]
pub struct LoginGrant {
    pub token: String,
    pub batches: Vec<Batch>,
}

/// What one login answer means.
#[derive(Debug)]
pub enum LoginOutcome {
    Granted(LoginGrant),
    Failed(Failure),
    /// Refused, with the system's message.
    Rejected(String),
}

pub open spec fn no_token_message() -> Seq<char> {
    "登录成功但没有返回 token"@
}

pub open spec fn no_batch_message() -> Seq<char> {
    "登录成功但未返回选课轮次"@
}

/// The end of a login whose answer has code 200: the token and batches,
/// or the error for a missing token or for no batch.
pub open spec fn granted_fits(body: JsonView, res: Result<LoginGrant, Failure>) -> bool {
    if text_at(body, "data"@, "token"@).len() == 0 {
        res matches Err(e) && e@ == simple_failure(FailureKind::Other, no_token_message())
    } else if login_batches_spec(get_in(body.get("data"@), "student"@)).len() == 0 {
        res matches Err(e) && e@ == simple_failure(FailureKind::Other, no_batch_message())
    } else {
        res matches Ok(g) && g.token@ == text_at(body, "data"@, "token"@)
            && g.batches@.map_values(|b: Batch| b@) == login_batches_spec(get_in(body.get("data"@), "student"@))
    }
}

/// What a login answer means: with code 200, the token and the batches
/// (an error where either is missing); otherwise a refusal.
pub fn login_outcome(body: &JsonValue) -> (r: LoginOutcome)
    ensures
        code_spec(body@) != 200 <==> r is Rejected,
        r matches LoginOutcome::Rejected(m) ==> m@ == message_spec(body@),
        code_spec(body@) == 200 ==> (
            if text_at(body@, "data"@, "token"@).len() == 0 {
                r matches LoginOutcome::Failed(e) && e@ == simple_failure(FailureKind::Other, no_token_message())
            } else if login_batches_spec(get_in(body@.get("data"@), "student"@)).len() == 0 {
                r matches LoginOutcome::Failed(e) && e@ == simple_failure(FailureKind::Other, no_batch_message())
            } else {
                r matches LoginOutcome::Granted(g) && g.token@ == text_at(body@, "data"@, "token"@)
                    && g.batches@.map_values(|b: Batch| b@) == login_batches_spec(get_in(body@.get("data"@), "student"@))
            }
        ),
{
    if code(body) != 200 {
        return LoginOutcome::Rejected(message(body));
    }
    let token = read_text_at(body, "data", "token");
    if text_is_empty(&token) {
        return LoginOutcome::Failed(Failure::msg("登录成功但没有返回 token"));
    }
    let student = match body.get("data") {
        Some(d) => d.get("student"),
        None => None,
    };
    let batches = login_batches(student);
    if batches.len() == 0 {
        return LoginOutcome::Failed(Failure::msg("登录成功但未返回选课轮次"));
    }
    LoginOutcome::Granted(LoginGrant { token, batches })
}

/// A refusal that blames the captcha, which a fresh captcha may fix.
pub open spec fn captcha_error_spec(message: Seq<char>) -> bool {
    contains_seq(message, "验证码"@) || contains_seq(lowercase(message), "captcha"@)
}

pub fn is_captcha_error(message: &str) -> (r: bool)
    ensures
        r == captcha_error_spec(message@),
{
    if str_contains(message, "验证码") {
        return true;
    }
    let lower = to_lowercase(message);
    str_contains(lower.as_str(), "captcha")
}

/// Where the login conversation stands.
#[derive(Debug, PartialEq, Eq, Structural)]
pub enum LoginStage {
    AwaitProfile,
    AwaitCaptcha,
    AwaitAnswer,
    AwaitReply,
    Done,
}

/// What the conversation needs next.
#[derive(Debug)]
pub enum LoginAction {
    /// Fetch the login page.
    FetchProfile,
    /// Ask for a captcha.
    RequestCaptcha,
    /// Read the captcha image.
    Recognize(String),
    /// Post the login form.
    Submit(Vec<(String, String)>),
    /// The conversation is over.
    Finished(Result<LoginGrant, Failure>),
}

/// What came back from the last action.
#[derive(Debug)]
pub enum LoginEvent {
    Profile(Result<String, Failure>),
    Captcha(Result<JsonValue, Failure>),
    Answer(Result<String, Failure>),
    Reply(Result<JsonValue, Failure>),
}

/// The state of one login: the credentials, the encrypted password, the
/// current attempt of at most `attempts`, and the challenge being answered.
#[derive(Debug)]
pub struct LoginFlow {
    pub username: String,
    pub password: String,
    pub attempts: usize,
    pub attempt: usize,
    pub encrypted: String,
    pub uuid: String,
    pub stage: LoginStage,
}

/// The login form's fields, in order.
pub open spec fn login_form_spec(username: Seq<char>, encrypted: Seq<char>, answer: Seq<char>, uuid: Seq<char>) -> Seq<(Seq<char>, Seq<char>)> {
    seq![("loginname"@, username), ("password"@, encrypted), ("captcha"@, answer), ("uuid"@, uuid)]
}

pub open spec fn form_view(form: Seq<(String, String)>) -> Seq<(Seq<char>, Seq<char>)> {
    form.map_values(|p: (String, String)| (p.0@, p.1@))
}

pub open spec fn login_failed_message(last: Seq<char>) -> Seq<char> {
    "登录失败："@ + last
}

impl LoginFlow {
    /// The event that the flow waits for in its stage.
    pub open spec fn accepts_spec(&self, event: &LoginEvent) -> bool {
        match self.stage {
            LoginStage::AwaitProfile => event is Profile,
            LoginStage::AwaitCaptcha => event is Captcha,
            LoginStage::AwaitAnswer => event is Answer,
            LoginStage::AwaitReply => event is Reply,
            LoginStage::Done => false,
        }
    }

    /// Whether `event` is the one the flow waits for.
    pub fn accepts(&self, event: &LoginEvent) -> (r: bool)
        ensures
            r == self.accepts_spec(event),
    {
        match self.stage {
            LoginStage::AwaitProfile => matches!(event, LoginEvent::Profile(_)),
            LoginStage::AwaitCaptcha => matches!(event, LoginEvent::Captcha(_)),
            LoginStage::AwaitAnswer => matches!(event, LoginEvent::Answer(_)),
            LoginStage::AwaitReply => matches!(event, LoginEvent::Reply(_)),
            LoginStage::Done => false,
        }
    }

    /// A login for `username`, trying at most `max(retries, 1)` captchas;
    /// it starts by fetching the login page.
    pub fn start(username: &str, password: &str, retries: usize) -> (r: (LoginFlow, LoginAction))
        ensures
            r.0.username@ == username@,
            r.0.password@ == password@,
            r.0.attempts == (if retries > 1 { retries } else { 1 }),
            r.0.attempt == 0,
            r.0.stage == LoginStage::AwaitProfile,
            r.1 is FetchProfile,
    {
        let flow = LoginFlow {
            username: owned(username),
            password: owned(password),
            attempts: if retries > 1 { retries } else { 1 },
            attempt: 0,
            encrypted: String::new(),
            uuid: String::new(),
            stage: LoginStage::AwaitProfile,
        };
        (flow, LoginAction::FetchProfile)
    }

    fn finish(&mut self, result: Result<LoginGrant, Failure>) -> (r: LoginAction)
        ensures
            final(self).stage == LoginStage::Done,
            final(self).attempt == old(self).attempt,
            final(self).attempts == old(self).attempts,
            final(self).username == old(self).username,
            final(self).password == old(self).password,
            final(self).encrypted == old(self).encrypted,
            final(self).uuid == old(self).uuid,
            r matches LoginAction::Finished(x) && x == result,
    {
        self.stage = LoginStage::Done;
        LoginAction::Finished(result)
    }

    /// The next step after `event`. The attempt count never passes
    /// `attempts`; a refusal that does not blame the captcha, or the last
    /// attempt's refusal, ends the login.
    pub fn step(&mut self, event: LoginEvent) -> (r: LoginAction)
        requires
            old(self).accepts_spec(&event),
            old(self).attempts >= 1,
            old(self).attempt <= old(self).attempts,
            old(self).stage != LoginStage::AwaitProfile ==> old(self).attempt >= 1,
        ensures
            final(self).attempts == old(self).attempts,
            final(self).attempt <= final(self).attempts,
            final(self).stage != LoginStage::AwaitProfile,
            final(self).stage != LoginStage::Done ==> final(self).attempt >= 1,
            final(self).username == old(self).username,
            (r is Finished) <==> (final(self).stage == LoginStage::Done),
            match event {
                LoginEvent::Profile(Err(e)) => r matches LoginAction::Finished(Err(x)) && x == e,
                LoginEvent::Profile(Ok(html)) => match aes_key_spec(html@) {
                    None => r matches LoginAction::Finished(Err(_)),
                    Some(key) => if utf8_len(key) != 16 {
                        r matches LoginAction::Finished(Err(x)) && x@ == simple_failure(FailureKind::Other, key_length_message(utf8_len(key)))
                    } else {
                        r is RequestCaptcha && final(self).stage == LoginStage::AwaitCaptcha && final(self).attempt == 1
                            && final(self).encrypted@ == base64_spec(aes128_ecb_pkcs7(key, old(self).password@))
                    },
                },
                LoginEvent::Captcha(Err(e)) => r matches LoginAction::Finished(Err(x)) && x == e,
                LoginEvent::Captcha(Ok(body)) => match captcha_spec(body@) {
                    Ok((image, uuid)) => r matches LoginAction::Recognize(i) && i@ == image
                        && final(self).uuid@ == uuid && final(self).stage == LoginStage::AwaitAnswer
                        && final(self).attempt == old(self).attempt && final(self).encrypted == old(self).encrypted,
                    Err(f) => r matches LoginAction::Finished(Err(x)) && x@ == f,
                },
                LoginEvent::Answer(Err(e)) => r matches LoginAction::Finished(Err(x)) && x == e,
                LoginEvent::Answer(Ok(answer)) => r matches LoginAction::Submit(form)
                    && form_view(form@) == login_form_spec(old(self).username@, old(self).encrypted@, answer@, old(self).uuid@)
                    && final(self).stage == LoginStage::AwaitReply && final(self).attempt == old(self).attempt
                    && final(self).encrypted == old(self).encrypted,
                LoginEvent::Reply(Err(e)) => r matches LoginAction::Finished(Err(x)) && x == e,
                LoginEvent::Reply(Ok(body)) => if code_spec(body@) == 200 {
                    r matches LoginAction::Finished(res) && granted_fits(body@, res)
                } else if captcha_error_spec(message_spec(body@)) && old(self).attempt < old(self).attempts {
                    r is RequestCaptcha && final(self).stage == LoginStage::AwaitCaptcha
                        && final(self).attempt == old(self).attempt + 1 && final(self).encrypted == old(self).encrypted
                } else {
                    r matches LoginAction::Finished(Err(x)) && x@ == simple_failure(FailureKind::Other, login_failed_message(message_spec(body@)))
                },
            },
    {
        match event {
            LoginEvent::Profile(Err(e)) => self.finish(Err(e)),
            LoginEvent::Profile(Ok(html)) => {
                let key = match aes_key_from_profile(html.as_str()) {
                    Ok(k) => k,
                    Err(e) => return self.finish(Err(e)),
                };
                match encrypt_password(self.password.as_str(), key.as_str()) {
                    Ok(encrypted) => {
                        self.encrypted = encrypted;
                        self.attempt = 1;
                        self.stage = LoginStage::AwaitCaptcha;
                        LoginAction::RequestCaptcha
                    },
                    Err(e) => self.finish(Err(e)),
                }
            },
            LoginEvent::Captcha(Err(e)) => self.finish(Err(e)),
            LoginEvent::Captcha(Ok(body)) => match captcha_challenge(&body) {
                Ok((image, uuid)) => {
                    self.uuid = uuid;
                    self.stage = LoginStage::AwaitAnswer;
                    LoginAction::Recognize(image)
                },
                Err(e) => self.finish(Err(e)),
            },
            LoginEvent::Answer(Err(e)) => self.finish(Err(e)),
            LoginEvent::Answer(Ok(answer)) => {
                let mut form: Vec<(String, String)> = Vec::new();
                form.push((owned("loginname"), self.username.clone()));
                form.push((owned("password"), self.encrypted.clone()));
                form.push((owned("captcha"), answer));
                form.push((owned("uuid"), self.uuid.clone()));
                self.stage = LoginStage::AwaitReply;
                assert(form_view(form@) =~= login_form_spec(old(self).username@, old(self).encrypted@, answer@, old(self).uuid@));
                LoginAction::Submit(form)
            },
            LoginEvent::Reply(Err(e)) => self.finish(Err(e)),
            LoginEvent::Reply(Ok(body)) => match login_outcome(&body) {
                LoginOutcome::Granted(g) => self.finish(Ok(g)),
                LoginOutcome::Failed(e) => self.finish(Err(e)),
                LoginOutcome::Rejected(last) => {
                    if is_captcha_error(last.as_str()) && self.attempt < self.attempts {
                        self.attempt = self.attempt + 1;
                        self.stage = LoginStage::AwaitCaptcha;
                        LoginAction::RequestCaptcha
                    } else {
                        let e = failure_with("登录失败：", last.as_str());
                        self.finish(Err(e))
                    }
                },
            },
        }
    }
}

// ---------------------------------------------------------------------------
// Paging through the course list
// ---------------------------------------------------------------------------

/// The rows of every course row expanded to teaching classes, in order.
pub open spec fn expand_all(rows: Seq<JsonView>) -> Seq<JsonView>
    decreases rows.len(),
{
    if rows.len() == 0 {
        Seq::empty()
    } else {
        expand_all(rows.drop_last()) + expand_spec(rows.last())
    }
}

/// The course rows of one page: `data.rows`, else none.
pub open spec fn page_rows(body: JsonView) -> Seq<JsonView> {
    array_at(body.get("data"@), "rows"@)
}

/// The number of course rows that the first page announces: `data.total`.
pub open spec fn page_total(body: JsonView) -> u64 {
    match get_in(body.get("data"@), "total"@) {
        Some(t) => match t.as_u64() {
            Some(n) => n,
            None => 0,
        },
        None => 0,
    }
}

/// The number of course rows received so far, once a page's answer is
/// counted: its course rows before they are expanded into teaching
/// classes (capped at `usize::MAX`).
pub open spec fn counted_rows(before: usize, body: JsonView) -> usize {
    if before + page_rows(body).len() > usize::MAX { usize::MAX } else { (before + page_rows(body).len()) as usize }
}

/// Paging counts course rows, not teaching classes: two pages with as many
/// course rows count alike however their rows expand; the count never
/// drops, and (below the cap) grows by exactly the page's course rows; so
/// a page of rows that leaves the count below the announced total never
/// ends the list.
pub proof fn lemma_paging_counts_course_rows(before: usize, b1: JsonView, b2: JsonView, total: usize)
    ensures
        page_rows(b1).len() == page_rows(b2).len() ==> counted_rows(before, b1) == counted_rows(before, b2),
        counted_rows(before, b1) >= before,
        before + page_rows(b1).len() <= usize::MAX ==> counted_rows(before, b1) == before + page_rows(b1).len(),
        before + page_rows(b1).len() < total ==> counted_rows(before, b1) < total,
        page_rows(b1).len() > 0 ==> (counted_rows(before, b1) >= total <==> before + page_rows(b1).len() >= total),
{
}

/// How one page is named in messages.
pub open spec fn page_stage_spec(page: usize) -> Seq<char> {
    "课程列表第 "@ + int_decimal(page as int) + " 页"@
}

/// The delay before the `k`-th retry of a page refused with 403.
pub open spec fn penalty_delay(penalty_ms: u64, k: nat) -> u64 {
    if penalty_ms * k > u64::MAX { u64::MAX } else { (penalty_ms * k) as u64 }
}

/// The pause between pages: the configured interval, never below 1.5 s.
pub open spec fn page_delay(interval_ms: u64) -> u64 {
    if interval_ms > 1_500 { interval_ms } else { 1_500 }
}

/// The name of one page in messages.
pub fn page_stage(page: usize) -> (r: String)
    ensures
        r@ == page_stage_spec(page),
{
    let mut s = owned("课程列表第 ");
    let n = decimal_of_u128(page as u128);
    append_str(&mut s, n.as_str());
    append_str(&mut s, " 页");
    s
}

/// What the paging needs next.
#[derive(Debug)]
pub enum FetchAction {
    /// Post the list request for `page`, after a keep-alive call where
    /// `heartbeat_first`, and after waiting `delay_ms`.
    Post { page: usize, payload: JsonValue, heartbeat_first: bool, delay_ms: u64 },
    /// The list is complete: the teaching classes and their number.
    Finished(Result<(Vec<Course>, usize), Failure>),
}

/// The state of one fetch of the course list.
#[derive(Debug)]
pub struct CourseFetch {
    pub teaching_class_type: String,
    pub campus: String,
    pub page_size: usize,
    pub interval_ms: u64,
    pub retry_403: usize,
    pub penalty_ms: u64,
    pub only_available: bool,
    pub page: usize,
    pub total: usize,
    pub fetched_groups: usize,
    pub attempt: usize,
    pub rows: Vec<Course>,
    pub done: bool,
}

/// The members of the list request for `page`.
pub open spec fn payload_spec(class_type: Seq<char>, campus: Seq<char>, page: usize, page_size: usize, only_available: bool) -> JsonView {
    let base = seq![
        ("teachingClassType"@, JsonView::Str(class_type)),
        ("pageNumber"@, JsonView::Number(int_decimal(page as int), if page <= i64::MAX { Some(page as i64) } else { None }, Some(page as u64))),
        ("pageSize"@, JsonView::Number(int_decimal(page_size as int), if page_size <= i64::MAX { Some(page_size as i64) } else { None }, Some(page_size as u64))),
        ("orderBy"@, JsonView::Str(Seq::empty())),
        ("campus"@, JsonView::Str(campus)),
    ];
    JsonView::Object(if only_available { base.push(("SFYM"@, JsonView::Str("0"@))) } else { base })
}

pub open spec fn rows_view(rows: Seq<Course>) -> Seq<JsonView> {
    rows.map_values(|c: Course| c.raw@)
}

impl CourseFetch {
    /// The list request for the current page.
    pub fn payload(&self) -> (r: JsonValue)
        ensures
            r@ == payload_spec(self.teaching_class_type@, self.campus@, self.page, self.page_size, self.only_available),
    {
        let mut entries: Vec<(String, JsonValue)> = Vec::new();
        entries.push((owned("teachingClassType"), JsonValue::String(self.teaching_class_type.clone())));
        entries.push((owned("pageNumber"), JsonValue::Number(JsonNumber::from_u64(self.page as u64))));
        entries.push((owned("pageSize"), JsonValue::Number(JsonNumber::from_u64(self.page_size as u64))));
        entries.push((owned("orderBy"), JsonValue::String(String::new())));
        entries.push((owned("campus"), JsonValue::String(self.campus.clone())));
        if self.only_available {
            entries.push((owned("SFYM"), JsonValue::text("0")));
        }
        proof {
            reveal_with_fuel(entries_view, 7);
            assert(entries_view(entries@) =~= (match payload_spec(self.teaching_class_type@, self.campus@, self.page, self.page_size, self.only_available) {
                JsonView::Object(e) => e,
                _ => Seq::empty(),
            }));
        }
        JsonValue::Object(entries)
    }

    /// A fetch of the list of `teaching_class_type` (only the classes with
    /// free seats where `only_available`); it starts by posting page 1.
    pub fn start(teaching_class_type: &str, campus: &str, page_size: usize, interval_ms: u64, retry_403: usize, penalty_ms: u64, only_available: bool) -> (r: (CourseFetch, FetchAction))
        ensures
            r.0.page == 1,
            r.0.attempt == 0,
            r.0.rows@.len() == 0,
            !r.0.done,
            r.0.retry_403 == retry_403,
            r.0.penalty_ms == penalty_ms,
            r.0.interval_ms == interval_ms,
            r.1 matches FetchAction::Post { page, payload, heartbeat_first, delay_ms }
                && page == 1 && !heartbeat_first && delay_ms == 0
                && payload@ == payload_spec(teaching_class_type@, campus@, 1, page_size, only_available),
    {
        let state = CourseFetch {
            teaching_class_type: owned(teaching_class_type),
            campus: owned(campus),
            page_size,
            interval_ms,
            retry_403,
            penalty_ms,
            only_available,
            page: 1,
            total: 0,
            fetched_groups: 0,
            attempt: 0,
            rows: Vec::new(),
            done: false,
        };
        let payload = state.payload();
        (state, FetchAction::Post { page: 1, payload, heartbeat_first: false, delay_ms: 0 })
    }

    /// The next step after the answer for the current page. A 403 is
    /// retried at most `retry_403` times, each after a keep-alive call and a
    /// growing penalty; an empty page, or having as many course rows as the
    /// first page announced, ends the list.
    #[verifier::loop_isolation(false)]
    pub fn step(&mut self, answer: Result<JsonValue, Failure>) -> (r: FetchAction)
        requires
            !old(self).done,
            old(self).attempt <= old(self).retry_403,
            old(self).page < usize::MAX,
        ensures
            final(self).retry_403 == old(self).retry_403,
            final(self).attempt <= final(self).retry_403,
            final(self).done <==> r is Finished,
            final(self).teaching_class_type == old(self).teaching_class_type,
            final(self).campus == old(self).campus,
            final(self).page_size == old(self).page_size,
            final(self).only_available == old(self).only_available,
            final(self).interval_ms == old(self).interval_ms,
            final(self).penalty_ms == old(self).penalty_ms,
            match answer {
                Err(e) => r matches FetchAction::Finished(Err(x)) && x == e,
                Ok(body) => if code_spec(body@) != 200 {
                    if code_spec(body@) == 403 && old(self).attempt < old(self).retry_403 {
                        r matches FetchAction::Post { page, payload, heartbeat_first, delay_ms }
                            && page == old(self).page && heartbeat_first
                            && delay_ms == penalty_delay(old(self).penalty_ms, (old(self).attempt + 1) as nat)
                            && payload@ == payload_spec(old(self).teaching_class_type@, old(self).campus@, page, old(self).page_size, old(self).only_available)
                            && final(self).attempt == old(self).attempt + 1
                            && rows_view(final(self).rows@) == rows_view(old(self).rows@)
                    } else {
                        r matches FetchAction::Finished(Err(x)) && x@ == simple_failure(FailureKind::Other,
                            page_stage_spec(old(self).page) + "失败："@ + message_spec(body@))
                    }
                } else {
                    &&& rows_view(final(self).rows@) == rows_view(old(self).rows@) + expand_all(page_rows(body@))
                    &&& final(self).attempt == 0
                    &&& final(self).total == (if old(self).page == 1 { page_total(body@) as usize } else { old(self).total })
                    &&& final(self).fetched_groups == counted_rows(old(self).fetched_groups, body@)
                    &&& if page_rows(body@).len() == 0 || final(self).fetched_groups >= final(self).total {
                        r matches FetchAction::Finished(Ok((courses, n)))
                            && rows_view(courses@) == rows_view(final(self).rows@) && n == courses@.len()
                    } else {
                        r matches FetchAction::Post { page, payload, heartbeat_first, delay_ms }
                            && page == old(self).page + 1 && page == final(self).page && !heartbeat_first
                            && delay_ms == page_delay(old(self).interval_ms)
                            && payload@ == payload_spec(final(self).teaching_class_type@, final(self).campus@, page, final(self).page_size, final(self).only_available)
                    }
                },
            },
    {
        let body = match answer {
            Ok(b) => b,
            Err(e) => {
                self.done = true;
                return FetchAction::Finished(Err(e));
            },
        };
        let c = code(&body);
        if c != 200 {
            let msg = message(&body);
            if c == 403 && self.attempt < self.retry_403 {
                self.attempt = self.attempt + 1;
                let factor = self.attempt as u64;
                let delay = match self.penalty_ms.checked_mul(factor) {
                    Some(d) => d,
                    None => u64::MAX,
                };
                let payload = self.payload();
                return FetchAction::Post { page: self.page, payload, heartbeat_first: true, delay_ms: delay };
            }
            let mut text = page_stage(self.page);
            append_str(&mut text, "失败：");
            append_str(&mut text, msg.as_str());
            self.done = true;
            return FetchAction::Finished(Err(Failure::of_kind(FailureKind::Other, text)));
        }
        self.attempt = 0;
        let data = body.get("data");
        if self.page == 1 {
            let t = match data {
                Some(d) => match d.get("total") {
                    Some(x) => match x.as_u64() {
                        Some(n) => n,
                        None => 0,
                    },
                    None => 0,
                },
                None => 0,
            };
            self.total = t as usize;
        }
        let rows = match data {
            Some(d) => match d.get("rows") {
                Some(x) => x.as_array(),
                None => None,
            },
            None => None,
        };
        let ghost start = rows_view(self.rows@);
        let ghost pre = *self;
        let mut count: usize = 0;
        if let Some(items) = rows {
            proof { lemma_items_view(items@); }
            let ghost model = items_view(items@);
            let mut i: usize = 0;
            while i < items.len()
                invariant
                    i <= items.len(),
                    model == items_view(items@),
                    model.len() == items.len(),
                    forall|k: int| 0 <= k < items.len() ==> #[trigger] model[k] == items@[k]@,
                    rows_view(self.rows@) == start + expand_all(model.take(i as int)),
                    self.retry_403 == pre.retry_403 && self.attempt == pre.attempt && self.page == pre.page,
                    self.done == pre.done && self.total == pre.total && self.fetched_groups == pre.fetched_groups,
                    self.teaching_class_type == pre.teaching_class_type && self.campus == pre.campus,
                    self.page_size == pre.page_size && self.only_available == pre.only_available,
                    self.interval_ms == pre.interval_ms && self.penalty_ms == pre.penalty_ms,
                decreases items.len() - i,
            {
                let expanded = Course::expand_api_row(items[i].duplicate());
                let mut j: usize = 0;
                let ghost mid = rows_view(self.rows@);
                let mut expanded = expanded;
                let ghost exp_view = rows_view(expanded@);
                while j < expanded.len()
                    invariant
                        j <= expanded.len(),
                        exp_view == rows_view(expanded@),
                        rows_view(self.rows@) == mid + exp_view.take(j as int),
                        self.retry_403 == pre.retry_403 && self.attempt == pre.attempt && self.page == pre.page,
                        self.done == pre.done && self.total == pre.total && self.fetched_groups == pre.fetched_groups,
                        self.teaching_class_type == pre.teaching_class_type && self.campus == pre.campus,
                        self.page_size == pre.page_size && self.only_available == pre.only_available,
                        self.interval_ms == pre.interval_ms && self.penalty_ms == pre.penalty_ms,
                    decreases expanded.len() - j,
                {
                    let c = expanded[j].raw.duplicate();
                    let ghost before = self.rows@;
                    self.rows.push(Course { raw: c });
                    proof {
                        assert(rows_view(self.rows@) =~= rows_view(before).push(exp_view[j as int]));
                        assert(exp_view.take(j + 1) =~= exp_view.take(j as int).push(exp_view[j as int]));
                    }
                    j += 1;
                }
                proof {
                    assert(exp_view.take(expanded.len() as int) == exp_view);
                    assert(model.take(i + 1).drop_last() == model.take(i as int));
                    assert(model.take(i + 1).last() == items@[i as int]@);
                }
                i += 1;
            }
            assert(model.take(items.len() as int) == model);
            count = items.len();
        } else {
            assert(expand_all(Seq::<JsonView>::empty()) == Seq::<JsonView>::empty());
            assert(rows_view(self.rows@) =~= start + Seq::<JsonView>::empty());
        }
        assert(count == page_rows(body@).len());
        self.fetched_groups = match self.fetched_groups.checked_add(count) {
            Some(n) => n,
            None => usize::MAX,
        };
        if count == 0 || self.fetched_groups >= self.total {
            self.done = true;
            let mut out: Vec<Course> = Vec::new();
            std::mem::swap(&mut out, &mut self.rows);
            let mut copy: Vec<Course> = Vec::new();
            let mut k: usize = 0;
            while k < out.len()
                invariant
                    k <= out.len(),
                    rows_view(copy@) == rows_view(out@).take(k as int),
                decreases out.len() - k,
            {
                let c = out[k].raw.duplicate();
                let ghost before = copy@;
                copy.push(Course { raw: c });
                assert(rows_view(copy@) =~= rows_view(before).push(out@[k as int].raw@));
                assert(rows_view(out@).take(k + 1) =~= rows_view(out@).take(k as int).push(out@[k as int].raw@));
                k += 1;
            }
            assert(rows_view(out@).take(out.len() as int) == rows_view(out@));
            self.rows = copy;
            let n = out.len();
            return FetchAction::Finished(Ok((out, n)));
        }
        self.page = self.page + 1;
        let delay = if self.interval_ms > 1_500 { self.interval_ms } else { 1_500 };
        let payload = self.payload();
        FetchAction::Post { page: self.page, payload, heartbeat_first: false, delay_ms: delay }
    }
}


// ---------------------------------------------------------------------------
// Submitting a selection
// ---------------------------------------------------------------------------

/// The form that chooses or drops a teaching class.
pub open spec fn clazz_form_spec(class_type: Seq<char>, raw: JsonView) -> Seq<(Seq<char>, Seq<char>)> {
    seq![
        ("clazzType"@, class_type),
        ("clazzId"@, first_text(raw, id_keys())),
        ("secretVal"@, first_text(raw, secret_keys())),
    ]
}

/// The form of a request that chooses (or drops) `course`.
pub fn clazz_form(teaching_class_type: &str, course: &Course) -> (r: Vec<(String, String)>)
    ensures
        form_view(r@) == clazz_form_spec(teaching_class_type@, course.raw@),
{
    let mut form: Vec<(String, String)> = Vec::new();
    form.push((owned("clazzType"), owned(teaching_class_type)));
    form.push((owned("clazzId"), course.id()));
    form.push((owned("secretVal"), course.secret()));
    assert(form_view(form@) =~= clazz_form_spec(teaching_class_type@, course.raw@));
    form
}

} // verus!
