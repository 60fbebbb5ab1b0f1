//! The network rules: which addresses are the campus VPN gateway, which
//! imported session cookies are acceptable, how a response is judged, and
//! which redirects may be followed.
use vstd::prelude::*;
use crate::failure::{simple_failure, Failure, FailureKind, FailureView, VPN_GUIDANCE};
use crate::json::JsonValue;
use crate::text::{append_str, chars_of, contains_seq, decimal_of_u128, int_decimal, owned, str_contains, str_eq, opt_view};

verus! {

/// The campus VPN portal.
pub const VPN_PORTAL: &'static str = "https://vpn.neuedu.com";
/// The origin of the elective system.
pub const XK_ORIGIN: &'static str = "https://xk.neusoft.edu.cn";
/// The elective system's login page.
pub const XK_LOGIN: &'static str = "https://xk.neusoft.edu.cn/xsxk/profile/index.html";
/// The host of the VPN gateway.
pub const VPN_HOST: &'static str = "vpn.neuedu.com";

// ---------------------------------------------------------------------------
// Addresses
// ---------------------------------------------------------------------------

/// The parts of a parsed URL that the rules read.
#[derive(Clone, Debug)]
pub struct UrlParts {
    pub scheme: String,
    pub username: String,
    pub password: Option<String>,
    pub host: Option<String>,
    pub path: String,
    /// The ASCII serialisation of a tuple origin; `None` for an opaque origin.
    pub origin: Option<String>,
}

/// The model of `UrlParts`.
pub struct UrlView {
    pub scheme: Seq<char>,
    pub username: Seq<char>,
    pub password: Option<Seq<char>>,
    pub host: Option<Seq<char>>,
    pub path: Seq<char>,
    pub origin: Option<Seq<char>>,
}

impl View for UrlParts {
    type V = UrlView;

    open spec fn view(&self) -> UrlView {
        UrlView {
            scheme: self.scheme@,
            username: self.username@,
            password: opt_view(self.password),
            host: opt_view(self.host),
            path: self.path@,
            origin: opt_view(self.origin),
        }
    }
}

pub open spec fn url_opt(u: Option<UrlParts>) -> Option<UrlView> {
    match u {
        Some(x) => Some(x@),
        None => None,
    }
}

/// What `url::Url::parse` makes of a text, read through the parts above.
pub uninterp spec fn url_parse(address: Seq<char>) -> Option<UrlView>;

/// What `url::Url::join` makes of a reference against a base.
pub uninterp spec fn url_join(base: Seq<char>, reference: Seq<char>) -> Option<UrlView>;

/// Wraps `reqwest::Url::parse` (the `url` crate), reading the scheme, user
/// name, password, host, path and origin of the result.
#[verifier::external_body]
fn parse_url_parts(address: &str) -> (r: Option<UrlParts>)
    ensures
        url_opt(r) == url_parse(address@),
{
    match reqwest::Url::parse(address) {
        Ok(url) => Some(UrlParts {
            scheme: url.scheme().to_string(),
            username: url.username().to_string(),
            password: match url.password() { Some(p) => Some(p.to_string()), None => None },
            host: match url.host_str() { Some(h) => Some(h.to_string()), None => None },
            path: url.path().to_string(),
            origin: if url.origin().is_tuple() { Some(url.origin().ascii_serialization()) } else { None },
        }),
        Err(_) => None,
    }
}

/// Wraps `reqwest::Url::join` (the `url` crate) on the parsed `base`,
/// reading the same parts of the result.
#[verifier::external_body]
fn join_url_parts(base: &str, reference: &str) -> (r: Option<UrlParts>)
    ensures
        url_opt(r) == url_join(base@, reference@),
{
    match reqwest::Url::parse(base) {
        Ok(b) => match b.join(reference) {
            Ok(url) => Some(UrlParts {
                scheme: url.scheme().to_string(),
                username: url.username().to_string(),
                password: match url.password() { Some(p) => Some(p.to_string()), None => None },
                host: match url.host_str() { Some(h) => Some(h.to_string()), None => None },
                path: url.path().to_string(),
                origin: if url.origin().is_tuple() { Some(url.origin().ascii_serialization()) } else { None },
            }),
            Err(_) => None,
        },
        Err(_) => None,
    }
}

impl UrlParts {
    /// The parts of `address` as a URL; `None` where it does not parse.
    pub fn parse(address: &str) -> (r: Option<UrlParts>)
        ensures
            url_opt(r) == url_parse(address@),
    {
        parse_url_parts(address)
    }

    /// The parts of `reference` resolved against `base`.
    pub fn join(base: &str, reference: &str) -> (r: Option<UrlParts>)
        ensures
            url_opt(r) == url_join(base@, reference@),
    {
        join_url_parts(base, reference)
    }
}

/// The URL is on the VPN gateway's host (exactly that host).
pub open spec fn is_vpn_url_spec(url: UrlView) -> bool {
    url.host == Some(VPN_HOST@)
}

/// Whether `url` is on the VPN gateway's host.
pub fn is_vpn_url(url: &UrlParts) -> (r: bool)
    ensures
        r == is_vpn_url_spec(url@),
{
    match &url.host {
        Some(h) => str_eq(h.as_str(), VPN_HOST),
        None => false,
    }
}

// ---------------------------------------------------------------------------
// Imported session cookies
// ---------------------------------------------------------------------------

/// A cookie that the VPN sign-in window exported for the elective host.
#[derive(Clone, Debug)]
pub struct SessionCookie {
    pub name: String,
    pub value: String,
    pub path: String,
}

/// The model of a cookie: name, value, path.
pub open spec fn cookie_view(c: SessionCookie) -> (Seq<char>, Seq<char>, Seq<char>) {
    (c.name@, c.value@, c.path@)
}

pub open spec fn is_token_char(c: char) -> bool {
    ('0' <= c <= '9') || ('a' <= c <= 'z') || ('A' <= c <= 'Z')
        || c == '!' || c == '#' || c == '$' || c == '%' || c == '&' || c == '\'' || c == '*'
        || c == '+' || c == '-' || c == '.' || c == '^' || c == '_' || c == '`' || c == '|' || c == '~'
}

/// A cookie name: non-empty, only the token characters of RFC 6265.
pub open spec fn valid_cookie_name(s: Seq<char>) -> bool {
    s.len() > 0 && forall|i: int| 0 <= i < s.len() ==> is_token_char(#[trigger] s[i])
}

pub open spec fn is_value_char(c: char) -> bool {
    0x20 < (c as u32) && (c as u32) < 0x7f && c != '"' && c != ';' && c != ',' && c != '\\'
}

/// A cookie value: printable ASCII without space, quote, semicolon, comma or backslash.
pub open spec fn valid_cookie_value(s: Seq<char>) -> bool {
    forall|i: int| 0 <= i < s.len() ==> is_value_char(#[trigger] s[i])
}

pub open spec fn is_path_char(c: char) -> bool {
    0x20 <= (c as u32) && (c as u32) < 0x7f && c != ';'
}

/// A cookie path: starts with `/`, printable ASCII without semicolon.
pub open spec fn valid_cookie_path(s: Seq<char>) -> bool {
    s.len() > 0 && s[0] == '/' && forall|i: int| 0 <= i < s.len() ==> is_path_char(#[trigger] s[i])
}

/// A cookie that can be set without altering the header it goes into.
pub open spec fn valid_cookie(name: Seq<char>, value: Seq<char>, path: Seq<char>) -> bool {
    valid_cookie_name(name) && valid_cookie_value(value) && valid_cookie_path(path)
        && name.len() + value.len() + path.len() <= 16_384
}

/// The `Set-Cookie` text for the elective host: no `Domain`, so the
/// cookie goes only to that exact host.
pub open spec fn cookie_header_spec(name: Seq<char>, value: Seq<char>, path: Seq<char>) -> Seq<char> {
    name + "="@ + value + "; Path="@ + path + "; Secure; HttpOnly"@
}

pub open spec fn invalid_session_message() -> Seq<char> {
    "授权会话数据格式无效"@
}

pub open spec fn too_many_cookies_message() -> Seq<char> {
    "授权会话数据过多"@
}

fn all_chars(v: &Vec<char>, which: u8) -> (r: bool)
    requires
        which < 3,
    ensures
        r == (forall|i: int| 0 <= i < v@.len() ==> (if which == 0 { is_token_char(#[trigger] v@[i]) } else if which == 1 { is_value_char(v@[i]) } else { is_path_char(v@[i]) })),
{
    let mut i: usize = 0;
    while i < v.len()
        invariant
            which < 3,
            i <= v.len(),
            forall|j: int| 0 <= j < i ==> (if which == 0 { is_token_char(#[trigger] v@[j]) } else if which == 1 { is_value_char(v@[j]) } else { is_path_char(v@[j]) }),
        decreases v.len() - i,
    {
        let c = v[i];
        let ok = if which == 0 {
            ('0' <= c && c <= '9') || ('a' <= c && c <= 'z') || ('A' <= c && c <= 'Z')
                || c == '!' || c == '#' || c == '$' || c == '%' || c == '&' || c == '\'' || c == '*'
                || c == '+' || c == '-' || c == '.' || c == '^' || c == '_' || c == '`' || c == '|' || c == '~'
        } else if which == 1 {
            0x20 < (c as u32) && (c as u32) < 0x7f && c != '"' && c != ';' && c != ',' && c != '\\'
        } else {
            0x20 <= (c as u32) && (c as u32) < 0x7f && c != ';'
        };
        if !ok {
            return false;
        }
        i += 1;
    }
    true
}

impl SessionCookie {
    /// The `Set-Cookie` text for the elective host; an error without any of
    /// the cookie's text where the cookie could alter the header.
    pub fn header(&self) -> (r: Result<String, Failure>)
        ensures
            match r {
                Ok(h) => valid_cookie(self.name@, self.value@, self.path@)
                    && h@ == cookie_header_spec(self.name@, self.value@, self.path@),
                Err(e) => !valid_cookie(self.name@, self.value@, self.path@)
                    && e@ == simple_failure(FailureKind::Other, invalid_session_message()),
            },
    {
        let name = chars_of(self.name.as_str());
        let value = chars_of(self.value.as_str());
        let path = chars_of(self.path.as_str());
        let name_ok = name.len() > 0 && all_chars(&name, 0);
        let value_ok = all_chars(&value, 1);
        let path_ok = path.len() > 0 && path[0] == '/' && all_chars(&path, 2);
        let size_ok = (name.len() as u128) + (value.len() as u128) + (path.len() as u128) <= 16_384;
        if !(name_ok && value_ok && path_ok && size_ok) {
            return Err(Failure::msg("授权会话数据格式无效"));
        }
        let mut out = self.name.clone();
        append_str(&mut out, "=");
        append_str(&mut out, self.value.as_str());
        append_str(&mut out, "; Path=");
        append_str(&mut out, self.path.as_str());
        append_str(&mut out, "; Secure; HttpOnly");
        Ok(out)
    }
}

/// The cookies can all be installed: at most 128 of them, each acceptable.
pub open spec fn valid_session(cookies: Seq<SessionCookie>) -> bool {
    cookies.len() <= 128 && forall|i: int| 0 <= i < cookies.len() ==> valid_cookie(#[trigger] cookies[i].name@, cookies[i].value@, cookies[i].path@)
}

/// Why a set of cookies cannot be installed: too many, else a bad cookie.
pub open spec fn session_failure(cookies: Seq<SessionCookie>) -> FailureView {
    if cookies.len() > 128 {
        simple_failure(FailureKind::Other, too_many_cookies_message())
    } else {
        simple_failure(FailureKind::Other, invalid_session_message())
    }
}

/// The `Set-Cookie` texts for a whole set of imported cookies, in order.
pub fn session_headers(cookies: &[SessionCookie]) -> (r: Result<Vec<String>, Failure>)
    ensures
        match r {
            Ok(headers) => valid_session(cookies@)
                && headers@.len() == cookies@.len()
                && forall|i: int| 0 <= i < cookies@.len() ==> (#[trigger] headers@[i])@ == cookie_header_spec(cookies@[i].name@, cookies@[i].value@, cookies@[i].path@),
            Err(e) => !valid_session(cookies@) && e@ == session_failure(cookies@),
        },
{
    if cookies.len() > 128 {
        return Err(Failure::msg("授权会话数据过多"));
    }
    let mut headers: Vec<String> = Vec::new();
    let mut i: usize = 0;
    while i < cookies.len()
        invariant
            i <= cookies.len(),
            cookies.len() <= 128,
            headers@.len() == i,
            forall|j: int| 0 <= j < i ==> valid_cookie(#[trigger] cookies@[j].name@, cookies@[j].value@, cookies@[j].path@),
            forall|j: int| 0 <= j < i ==> (#[trigger] headers@[j])@ == cookie_header_spec(cookies@[j].name@, cookies@[j].value@, cookies@[j].path@),
        decreases cookies.len() - i,
    {
        match cookies[i].header() {
            Ok(h) => headers.push(h),
            Err(e) => return Err(e),
        }
        i += 1;
    }
    Ok(headers)
}

/// The cookie jar of the HTTP client.
#[verifier::external_type_specification]
#[verifier::external_body]
pub struct ExJar(reqwest::cookie::Jar);

/// Wraps `Jar::default`: a jar without cookies. Nothing of the jar's
/// contents is stated: the jar keeps them behind a lock.
#[verifier::external_body]
fn empty_jar() -> (r: reqwest::cookie::Jar) {
    reqwest::cookie::Jar::default()
}

/// Wraps `Jar::add_cookie_str` on the URL that `url` parses to: the jar
/// stores the cookie that the `Set-Cookie` text describes, as received from
/// that URL (and drops a text that is not a cookie). Only URLs that parse
/// are admitted. What the jar holds afterwards is not stated: the jar keeps
/// its cookies behind a lock, which the call takes for writing.
#[verifier::external_body]
fn jar_add(jar: &reqwest::cookie::Jar, header: &str, url: &str)
    requires
        url_parse(url@) is Some,
{
    if let Ok(u) = reqwest::Url::parse(url) {
        jar.add_cookie_str(header, &u);
    }
}

pub open spec fn bad_origin_message() -> Seq<char> {
    "选课站点地址无效"@
}

/// Adds one imported cookie for the elective host (exactly that host: the
/// header names no domain); an error, holding none of the cookie's text,
/// where the cookie could alter the header.
pub fn add_session_cookie(jar: &reqwest::cookie::Jar, cookie: &SessionCookie) -> (r: Result<(), Failure>)
    ensures
        match r {
            Ok(()) => valid_cookie(cookie.name@, cookie.value@, cookie.path@) && url_parse(XK_ORIGIN@) is Some,
            Err(e) => if !valid_cookie(cookie.name@, cookie.value@, cookie.path@) {
                e@ == simple_failure(FailureKind::Other, invalid_session_message())
            } else {
                url_parse(XK_ORIGIN@) is None && e@ == simple_failure(FailureKind::Other, bad_origin_message())
            },
        },
{
    let header = cookie.header()?;
    match UrlParts::parse(XK_ORIGIN) {
        Some(_) => {
            jar_add(jar, header.as_str(), XK_ORIGIN);
            Ok(())
        },
        None => Err(Failure::msg("选课站点地址无效")),
    }
}

/// A jar with the imported cookies for the elective host, after checking
/// every one of them: at most 128, each acceptable.
pub fn session_jar(cookies: &[SessionCookie]) -> (r: Result<std::sync::Arc<reqwest::cookie::Jar>, Failure>)
    ensures
        match r {
            Ok(_) => valid_session(cookies@) && url_parse(XK_ORIGIN@) is Some,
            Err(e) => if !valid_session(cookies@) {
                e@ == session_failure(cookies@)
            } else {
                url_parse(XK_ORIGIN@) is None && e@ == simple_failure(FailureKind::Other, bad_origin_message())
            },
        },
{
    let headers = session_headers(cookies)?;
    if UrlParts::parse(XK_ORIGIN).is_none() {
        return Err(Failure::msg("选课站点地址无效"));
    }
    let jar = empty_jar();
    let mut i: usize = 0;
    while i < headers.len()
        invariant
            i <= headers.len(),
            url_parse(XK_ORIGIN@) is Some,
        decreases headers.len() - i,
    {
        jar_add(&jar, headers[i].as_str(), XK_ORIGIN);
        i += 1;
    }
    Ok(std::sync::Arc::new(jar))
}

/// The imported cookies that requests to the elective system carry.
#[derive(Debug)]
pub struct SessionStore {
    pub cookies: Vec<SessionCookie>,
}

impl SessionStore {
    /// An empty store.
    pub fn new() -> (r: SessionStore)
        ensures
            r.cookies@.len() == 0,
    {
        SessionStore { cookies: Vec::new() }
    }
}

/// Installs the cookies that the sign-in window exported, after checking
/// every one of them; a refused set leaves the store as it was.
pub fn install_session(store: &mut SessionStore, cookies: Vec<SessionCookie>) -> (r: Result<(), Failure>)
    ensures
        match r {
            Ok(()) => valid_session(cookies@) && final(store).cookies@ == cookies@,
            Err(e) => !valid_session(cookies@) && e@ == session_failure(cookies@)
                && final(store).cookies@ == old(store).cookies@,
        },
{
    match session_headers(cookies.as_slice()) {
        Ok(_) => {
            store.cookies = cookies;
            Ok(())
        },
        Err(e) => Err(e),
    }
}

// ---------------------------------------------------------------------------
// Judging a response
// ---------------------------------------------------------------------------

/// The VPN gateway's demand as an error value.
#[derive(Debug)]
pub struct VpnRequired;

impl VpnRequired {
    /// What the error shows: how to get through the gateway.
    pub fn message(&self) -> (r: String)
        ensures
            r@ == VPN_GUIDANCE@,
    {
        owned(VPN_GUIDANCE)
    }

    /// The error as a failure value.
    pub fn into_failure(self) -> (r: Failure)
        ensures
            r@ == simple_failure(FailureKind::VpnRequired, VPN_GUIDANCE@),
    {
        Failure::vpn_required()
    }
}

pub open spec fn redirect_refused_message(stage: Seq<char>, status: u16) -> Seq<char> {
    stage + "收到未允许的跳转（HTTP "@ + int_decimal(status as int) + "），请检查校园网/VPN；未向跳转地址发送数据"@
}

pub open spec fn bad_status_message(stage: Seq<char>, status: u16) -> Seq<char> {
    stage + "返回错误状态：HTTP "@ + int_decimal(status as int)
}

/// The verdict on a response: the gateway where the response or its
/// redirect target is on the VPN host; a refused redirect for 3xx; an error
/// for any other status outside 2xx. No message holds an address.
pub open spec fn response_verdict(stage: Seq<char>, url: UrlView, destination: Option<UrlView>, status: u16) -> Result<(), FailureView> {
    if is_vpn_url_spec(url) || (match destination { Some(d) => is_vpn_url_spec(d), None => false }) {
        Err(simple_failure(FailureKind::VpnRequired, VPN_GUIDANCE@))
    } else if 300 <= status < 400 {
        Err(simple_failure(FailureKind::Other, redirect_refused_message(stage, status)))
    } else if !(200 <= status < 300) {
        Err(simple_failure(FailureKind::Other, bad_status_message(stage, status)))
    } else {
        Ok(())
    }
}

/// Judges a response by its final address, where its `Location` points
/// (resolved against that address), and its status.
pub fn check_response(stage: &str, url: &UrlParts, destination: Option<UrlParts>, status: u16) -> (r: Result<(), Failure>)
    ensures
        match r {
            Ok(()) => response_verdict(stage@, url@, url_opt(destination), status) is Ok,
            Err(e) => response_verdict(stage@, url@, url_opt(destination), status) == Err::<(), FailureView>(e@),
        },
{
    let to_vpn = match &destination {
        Some(d) => is_vpn_url(d),
        None => false,
    };
    if is_vpn_url(url) || to_vpn {
        return Err(Failure::vpn_required());
    }
    if 300 <= status && status < 400 {
        let mut text = owned(stage);
        append_str(&mut text, "收到未允许的跳转（HTTP ");
        let code = decimal_of_u128(status as u128);
        append_str(&mut text, code.as_str());
        append_str(&mut text, "），请检查校园网/VPN；未向跳转地址发送数据");
        return Err(Failure::of_kind(FailureKind::Other, text));
    }
    if !(200 <= status && status < 300) {
        let mut text = owned(stage);
        append_str(&mut text, "返回错误状态：HTTP ");
        let code = decimal_of_u128(status as u128);
        append_str(&mut text, code.as_str());
        return Err(Failure::of_kind(FailureKind::Other, text));
    }
    Ok(())
}

/// Judges a response from its final address, its `Location` header (if
/// any) and its status.
pub fn send_checked(stage: &str, final_url: &str, location: Option<&str>, status: u16) -> (r: Result<(), Failure>)
    ensures
        match url_parse(final_url@) {
            Some(u) => {
                let destination = match location {
                    Some(l) => url_join(final_url@, l@),
                    None => None,
                };
                match r {
                    Ok(()) => response_verdict(stage@, u, destination, status) is Ok,
                    Err(e) => response_verdict(stage@, u, destination, status) == Err::<(), FailureView>(e@),
                }
            },
            None => r is Err,
        },
{
    let url = match UrlParts::parse(final_url) {
        Some(u) => u,
        None => return Err(Failure::msg("响应地址无效")),
    };
    let destination = match location {
        Some(l) => UrlParts::join(final_url, l),
        None => None,
    };
    check_response(stage, &url, destination, status)
}

pub open spec fn transport_message(stage: Seq<char>) -> Seq<char> {
    stage + "请求失败；请检查校园网/VPN连接"@
}

/// A request that never got a response: the stage's advice over the cause
/// (whose text the caller has already stripped of the address).
pub fn transport_failure(stage: &str, cause: String) -> (r: Failure)
    ensures
        r@.kind == FailureKind::Other,
        r@.messages == seq![transport_message(stage@), cause@],
{
    let mut text = owned(stage);
    append_str(&mut text, "请求失败；请检查校园网/VPN连接");
    Failure::of_kind(FailureKind::Other, cause).context(text)
}

/// What a redirect policy does with one hop.
#[derive(Debug, PartialEq, Eq, Structural)]
pub enum RedirectAction {
    Follow,
    Stop,
    TooMany,
}

/// The redirect rule: at most ten hops, and only to the origin of the
/// first request (a redirect elsewhere is not followed, so a request body
/// never goes to another origin).
pub fn redirect_action(previous: usize, first_origin: Option<&str>, next_origin: Option<&str>) -> (r: RedirectAction)
    ensures
        previous >= 10 ==> r == RedirectAction::TooMany,
        previous < 10 ==> (r == RedirectAction::Follow <==> (match (first_origin, next_origin) {
            (Some(a), Some(b)) => a@ == b@,
            _ => false,
        })),
        previous < 10 ==> r != RedirectAction::TooMany,
{
    if previous >= 10 {
        return RedirectAction::TooMany;
    }
    match (first_origin, next_origin) {
        (Some(a), Some(b)) => if str_eq(a, b) { RedirectAction::Follow } else { RedirectAction::Stop },
        _ => RedirectAction::Stop,
    }
}

pub open spec fn not_json_message(stage: Seq<char>, status: Seq<char>, content_type: Seq<char>, detail: Seq<char>) -> Seq<char> {
    stage + "未返回 JSON：HTTP "@ + status + "，Content-Type="@ + content_type + "，"@ + detail + "；请检查校园网/VPN连接"@
}

/// What only the login page of the elective system contains.
pub const LOGIN_PAGE_MARK: &'static str = "loginVue.loginForm";

pub open spec fn expired_message(stage: Seq<char>) -> Seq<char> {
    stage + "返回了登录页，登录会话已失效"@
}

/// The body of a JSON answer: the parsed document; where it did not parse,
/// the gateway if the text names the VPN host, an expired login if the text
/// is the login page, else an error that names the stage, status and
/// content type.
pub fn json_response(stage: &str, status: &str, content_type: &str, text: &str, parsed: Result<JsonValue, String>) -> (r: Result<JsonValue, Failure>)
    ensures
        match parsed {
            Ok(v) => r is Ok && r->Ok_0@ == v@,
            Err(detail) => r is Err && if contains_seq(text@, VPN_HOST@) {
                r->Err_0@ == simple_failure(FailureKind::VpnRequired, VPN_GUIDANCE@)
            } else if contains_seq(text@, LOGIN_PAGE_MARK@) {
                r->Err_0@ == simple_failure(FailureKind::SessionExpired, expired_message(stage@))
            } else {
                r->Err_0@ == simple_failure(FailureKind::Other, not_json_message(stage@, status@, content_type@, detail@))
            },
        },
{
    match parsed {
        Ok(v) => Ok(v),
        Err(detail) => {
            if str_contains(text, VPN_HOST) {
                return Err(Failure::vpn_required());
            }
            if str_contains(text, LOGIN_PAGE_MARK) {
                let mut m = owned(stage);
                append_str(&mut m, "返回了登录页，登录会话已失效");
                return Err(Failure::of_kind(FailureKind::SessionExpired, m));
            }
            let mut m = owned(stage);
            append_str(&mut m, "未返回 JSON：HTTP ");
            append_str(&mut m, status);
            append_str(&mut m, "，Content-Type=");
            append_str(&mut m, content_type);
            append_str(&mut m, "，");
            append_str(&mut m, detail.as_str());
            append_str(&mut m, "；请检查校园网/VPN连接");
            Err(Failure::of_kind(FailureKind::Other, m))
        },
    }
}

} // verus!
