//! The rules of the VPN sign-in window: which pages it may show, from which
//! page the session may be exported, and how its reply is read.
use vstd::prelude::*;
use vstd::string::StringSliceAdditionalSpecFns;
use crate::failure::{simple_failure, Failure, FailureKind};
use crate::network::{cookie_view, session_failure, session_headers, valid_session, SessionCookie, UrlParts, UrlView, url_parse, XK_ORIGIN};
use crate::text::{ends_with_seq, owned, starts_with_seq, str_eq, chars_of, starts_with_chars, ends_with_chars};

verus! {

/// The first line that the window's helper expects on its input.
pub const CHANNEL_HELLO: &'static str = "DNUI_VPN_AUTH_V1\n";

/// The largest reply read from the helper, in bytes.
pub const MAX_REPLY: u64 = 131_072;

/// A page of the elective system: its origin is exactly the elective
/// system's, and its path is under `/xsxk/`.
pub open spec fn xk_page_spec(u: Option<UrlView>) -> bool {
    match u {
        Some(url) => url.origin == Some(XK_ORIGIN@) && starts_with_seq(url.path, "/xsxk/"@),
        None => false,
    }
}

/// Whether a parsed address is a page of the elective system.
pub fn is_xk_url(url: &UrlParts) -> (r: bool)
    ensures
        r == xk_page_spec(Some(url@)),
{
    let origin_ok = match &url.origin {
        Some(o) => str_eq(o.as_str(), XK_ORIGIN),
        None => false,
    };
    if !origin_ok {
        return false;
    }
    let path = chars_of(url.path.as_str());
    let prefix = chars_of("/xsxk/");
    starts_with_chars(path.as_slice(), prefix.as_slice())
}

/// Whether `address` is a page of the elective system (only there may the
/// window export the session).
pub fn is_xk_page(address: &str) -> (r: bool)
    ensures
        r == xk_page_spec(url_parse(address@)),
{
    match UrlParts::parse(address) {
        Some(url) => is_xk_url(&url),
        None => false,
    }
}

/// A school host: `neusoft.edu.cn` or `neuedu.com`, or a subdomain of one.
pub open spec fn school_host(h: Seq<char>) -> bool {
    h == "neusoft.edu.cn"@ || ends_with_seq(h, ".neusoft.edu.cn"@) || h == "neuedu.com"@ || ends_with_seq(h, ".neuedu.com"@)
}

/// A page the window may show: HTTPS, no credentials in the address, on a
/// school host.
pub open spec fn allowed_navigation_spec(u: Option<UrlView>) -> bool {
    match u {
        Some(url) => url.scheme == "https"@ && url.username.len() == 0 && url.password is None
            && (match url.host {
                Some(h) => school_host(h),
                None => false,
            }),
        None => false,
    }
}

fn ends_with_str(s: &str, suffix: &str) -> (r: bool)
    ensures
        r == ends_with_seq(s@, suffix@),
{
    let a = chars_of(s);
    let b = chars_of(suffix);
    ends_with_chars(a.as_slice(), b.as_slice())
}

/// Whether the window may show a parsed address.
pub fn allowed_url(url: &UrlParts) -> (r: bool)
    ensures
        r == allowed_navigation_spec(Some(url@)),
{
    if !str_eq(url.scheme.as_str(), "https") || !url.username.as_str().is_empty() || url.password.is_some() {
        return false;
    }
    match &url.host {
        Some(h) => {
            let host = h.as_str();
            str_eq(host, "neusoft.edu.cn") || ends_with_str(host, ".neusoft.edu.cn")
                || str_eq(host, "neuedu.com") || ends_with_str(host, ".neuedu.com")
        },
        None => false,
    }
}

/// Whether the window may navigate to `address`.
pub fn allowed_navigation(address: &str) -> (r: bool)
    ensures
        r == allowed_navigation_spec(url_parse(address@)),
{
    match UrlParts::parse(address) {
        Some(url) => allowed_url(&url),
        None => false,
    }
}

/// What the helper replies: the exported cookies, or why there are none.
#[derive(Debug)]
pub struct AuthReply {
    pub cookies: Option<Vec<SessionCookie>>,
    pub error: Option<String>,
}

pub open spec fn too_large_message() -> Seq<char> {
    "授权窗口返回数据过大"@
}

pub open spec fn invalid_reply_message() -> Seq<char> {
    "授权窗口未返回有效结果，请确认已安装 Microsoft Edge WebView2 Runtime"@
}

pub open spec fn cancelled_message() -> Seq<char> {
    "VPN 授权已取消"@
}

/// The outcome of a reply of `size` bytes that parsed as `parsed` (`None`
/// where it is not a reply at all): too large, not a reply, the cookies
/// where they can be installed, or the error the helper gave.
pub open spec fn decode_reply_fits(size: nat, parsed: Option<AuthReply>, r: Result<Vec<SessionCookie>, Failure>) -> bool {
    if size > MAX_REPLY {
        r matches Err(e) && e@ == simple_failure(FailureKind::Other, too_large_message())
    } else {
        match parsed {
            None => r matches Err(e) && e@ == simple_failure(FailureKind::Other, invalid_reply_message()),
            Some(reply) => match reply.cookies {
                Some(cookies) => if valid_session(cookies@) {
                    r matches Ok(c) && c@ == cookies@
                } else {
                    r matches Err(e) && e@ == session_failure(cookies@)
                },
                None => r matches Err(e) && e@ == simple_failure(FailureKind::Other, match reply.error {
                    Some(m) => m@,
                    None => cancelled_message(),
                }),
            },
        }
    }
}

/// Reads the helper's reply: `size` is its length in bytes, `parsed` what
/// it parsed as. The error never repeats the reply's own text, except the
/// error message the helper itself wrote.
pub fn decode_reply(size: usize, parsed: Option<AuthReply>) -> (r: Result<Vec<SessionCookie>, Failure>)
    ensures
        decode_reply_fits(size as nat, parsed, r),
{
    if size as u64 > MAX_REPLY {
        return Err(Failure::msg("授权窗口返回数据过大"));
    }
    let reply = match parsed {
        Some(reply) => reply,
        None => return Err(Failure::msg("授权窗口未返回有效结果，请确认已安装 Microsoft Edge WebView2 Runtime")),
    };
    match reply.cookies {
        Some(cookies) => match session_headers(cookies.as_slice()) {
            Ok(_) => Ok(cookies),
            Err(e) => Err(e),
        },
        None => match reply.error {
            Some(m) => Err(Failure::of_kind(FailureKind::Other, m)),
            None => Err(Failure::msg("VPN 授权已取消")),
        },
    }
}

/// The reply the helper writes for the outcome of the sign-in: the cookies,
/// or the outermost description of the failure.
pub fn reply_for(result: Result<Vec<SessionCookie>, Failure>) -> (r: AuthReply)
    ensures
        match result {
            Ok(c) => r.cookies == Some(c) && r.error is None,
            Err(e) => r.cookies is None && (r.error matches Some(m)
                && m@ == (if e@.messages.len() > 0 { e@.messages[0] } else { Seq::<char>::empty() })),
        },
{
    match result {
        Ok(cookies) => AuthReply { cookies: Some(cookies), error: None },
        Err(e) => AuthReply { cookies: None, error: Some(e.message()) },
    }
}

/// Whether the helper was started by this program: what it read first is
/// the channel greeting, byte for byte.
pub fn hello_ok(received: &[u8]) -> (r: bool)
    ensures
        r == (received@ == CHANNEL_HELLO.spec_bytes()),
{
    let expected = CHANNEL_HELLO.as_bytes();
    if received.len() != expected.len() {
        return false;
    }
    let mut i: usize = 0;
    while i < expected.len()
        invariant
            i <= expected.len(),
            received@.len() == expected@.len(),
            expected@ == CHANNEL_HELLO.spec_bytes(),
            forall|k: int| 0 <= k < i ==> received@[k] == expected@[k],
        decreases expected.len() - i,
    {
        if received[i] != expected[i] {
            return false;
        }
        i += 1;
    }
    assert(received@ =~= expected@);
    true
}

/// The sign-in window exists only on Windows; elsewhere the VPN must be
/// joined by the campus network or a system VPN tunnel.
pub open spec fn unsupported_message() -> Seq<char> {
    "当前平台暂不支持内置 VPN 授权窗口，请使用校园网或系统 VPN 隧道"@
}

/// The in-program VPN sign-in, where the platform has no sign-in window.
pub fn authorize() -> (r: Result<Vec<SessionCookie>, Failure>)
    ensures
        r matches Err(e) && e@ == simple_failure(FailureKind::Other, unsupported_message()),
{
    Err(Failure::msg("当前平台暂不支持内置 VPN 授权窗口，请使用校园网或系统 VPN 隧道"))
}


/// What the page sends to ask for the export of the session.
pub const EXPORT_REQUEST: &'static str = "dnui-complete-vpn-auth";

/// Whether a message from the page asks for the export: the agreed body,
/// sent from a page of the elective system.
pub fn export_requested(body: &str, uri: &str) -> (r: bool)
    ensures
        r == (body@ == EXPORT_REQUEST@ && xk_page_spec(url_parse(uri@))),
{
    str_eq(body, EXPORT_REQUEST) && is_xk_page(uri)
}


pub open spec fn still_refused_message() -> Seq<char> {
    "授权窗口已经返回，但桌面程序仍被 VPN 网关要求验证。该连接可能还依赖浏览器或应用级隧道；当前未标记为授权成功，请联系学校确认是否允许桌面客户端接入。"@
}

/// The verdict on the network check made with freshly exported cookies: a
/// VPN demand now means the desktop program is still refused (an ordinary
/// failure, not a demand to sign in again); any other failure is wrapped
/// in `授权后的接口检测未通过`.
pub fn authorized_check(result: Result<(), Failure>) -> (r: Result<(), Failure>)
    ensures
        match result {
            Ok(()) => r is Ok,
            Err(e) => r matches Err(x) && if e.kind == FailureKind::VpnRequired {
                x@ == simple_failure(FailureKind::Other, still_refused_message())
            } else {
                x@.kind == e.kind && x@.messages == seq!["授权后的接口检测未通过"@] + e@.messages
            },
        },
{
    match result {
        Ok(()) => Ok(()),
        Err(e) => {
            if e.is_vpn_required() {
                Err(Failure::msg("授权窗口已经返回，但桌面程序仍被 VPN 网关要求验证。该连接可能还依赖浏览器或应用级隧道；当前未标记为授权成功，请联系学校确认是否允许桌面客户端接入。"))
            } else {
                Err(e.context(owned("授权后的接口检测未通过")))
            }
        },
    }
}


// ---------------------------------------------------------------------------
// The cookies the window exports
// ---------------------------------------------------------------------------

/// Texts in lexicographic order, character by character (for UTF-8 texts
/// the same order as byte by byte).
pub open spec fn text_lt(a: Seq<char>, b: Seq<char>) -> bool
    decreases a.len(),
{
    if a.len() == 0 {
        b.len() > 0
    } else if b.len() == 0 {
        false
    } else if a[0] != b[0] {
        (a[0]) < (b[0])
    } else {
        text_lt(a.drop_first(), b.drop_first())
    }
}

/// The key of an exported cookie: its name, then its path.
pub open spec fn key_lt(x: (Seq<char>, Seq<char>), y: (Seq<char>, Seq<char>)) -> bool {
    text_lt(x.0, y.0) || (x.0 == y.0 && text_lt(x.1, y.1))
}

pub open spec fn triple_key(t: (Seq<char>, Seq<char>, Seq<char>)) -> (Seq<char>, Seq<char>) {
    (t.0, t.2)
}

pub open spec fn cookie_triples(v: Seq<SessionCookie>) -> Seq<(Seq<char>, Seq<char>, Seq<char>)> {
    v.map_values(|c: SessionCookie| cookie_view(c))
}

/// Strictly ascending by key (so no key occurs twice).
pub open spec fn keys_ascending(s: Seq<(Seq<char>, Seq<char>, Seq<char>)>) -> bool {
    forall|i: int, j: int| 0 <= i < j < s.len() ==> key_lt(#[trigger] triple_key(s[i]), #[trigger] triple_key(s[j]))
}

/// `t` is among the first `n` found, and none found after it (within
/// those) has its key.
pub open spec fn latest_in(found: Seq<(Seq<char>, Seq<char>, Seq<char>)>, n: int, t: (Seq<char>, Seq<char>, Seq<char>)) -> bool {
    exists|i: int| 0 <= i < n && found[i] == t
        && forall|k: int| i < k < n ==> triple_key(#[trigger] found[k]) != triple_key(t)
}

pub open spec fn key_present(s: Seq<(Seq<char>, Seq<char>, Seq<char>)>, key: (Seq<char>, Seq<char>)) -> bool {
    exists|j: int| 0 <= j < s.len() && triple_key(#[trigger] s[j]) == key
}

proof fn lemma_text_lt_irreflexive(a: Seq<char>)
    ensures
        !text_lt(a, a),
    decreases a.len(),
{
    if a.len() > 0 {
        lemma_text_lt_irreflexive(a.drop_first());
    }
}

proof fn lemma_text_lt_total(a: Seq<char>, b: Seq<char>)
    ensures
        a != b ==> text_lt(a, b) || text_lt(b, a),
    decreases a.len(),
{
    if a.len() > 0 && b.len() > 0 && a[0] == b[0] {
        lemma_text_lt_total(a.drop_first(), b.drop_first());
        if a.drop_first() == b.drop_first() {
            assert(a =~= b) by {
                assert(a.len() == b.len());
                assert forall|k: int| 0 <= k < a.len() implies a[k] == b[k] by {
                    if k > 0 {
                        assert(a[k] == a.drop_first()[k - 1]);
                        assert(b[k] == b.drop_first()[k - 1]);
                    }
                }
            }
        }
    } else if a.len() == 0 && b.len() == 0 {
        assert(a =~= b);
    }
}

proof fn lemma_text_lt_transitive(a: Seq<char>, b: Seq<char>, c: Seq<char>)
    requires
        text_lt(a, b),
        text_lt(b, c),
    ensures
        text_lt(a, c),
    decreases a.len(),
{
    if a.len() > 0 && a[0] == b[0] && b[0] == c[0] {
        lemma_text_lt_transitive(a.drop_first(), b.drop_first(), c.drop_first());
    }
}

proof fn lemma_key_order(x: (Seq<char>, Seq<char>), y: (Seq<char>, Seq<char>), z: (Seq<char>, Seq<char>))
    ensures
        !key_lt(x, x),
        x != y ==> key_lt(x, y) || key_lt(y, x),
        key_lt(x, y) && key_lt(y, z) ==> key_lt(x, z),
{
    lemma_text_lt_irreflexive(x.0);
    lemma_text_lt_irreflexive(x.1);
    lemma_text_lt_total(x.0, y.0);
    lemma_text_lt_total(x.1, y.1);
    if key_lt(x, y) && key_lt(y, z) {
        if text_lt(x.0, y.0) && text_lt(y.0, z.0) {
            lemma_text_lt_transitive(x.0, y.0, z.0);
        } else if text_lt(x.1, y.1) && text_lt(y.1, z.1) {
            lemma_text_lt_transitive(x.1, y.1, z.1);
        }
    }
}

fn text_less(a: &String, b: &String) -> (r: bool)
    ensures
        r == text_lt(a@, b@),
{
    let x = chars_of(a.as_str());
    let y = chars_of(b.as_str());
    let mut i: usize = 0;
    assert(x@.skip(0) =~= x@ && y@.skip(0) =~= y@);
    while i < x.len() && i < y.len()
        invariant
            i <= x.len(),
            i <= y.len(),
            x@ == a@,
            y@ == b@,
            text_lt(x@, y@) == text_lt(x@.skip(i as int), y@.skip(i as int)),
        decreases x.len() - i,
    {
        assert(x@.skip(i as int)[0] == x@[i as int]);
        assert(y@.skip(i as int)[0] == y@[i as int]);
        if x[i] != y[i] {
            return (x[i]) < (y[i]);
        }
        assert(x@.skip(i as int).drop_first() =~= x@.skip(i + 1));
        assert(y@.skip(i as int).drop_first() =~= y@.skip(i + 1));
        i += 1;
    }
    assert(i == x.len() ==> x@.skip(i as int).len() == 0);
    assert(i == y.len() ==> y@.skip(i as int).len() == 0);
    i == x.len() && i < y.len()
}

fn key_less(a: &SessionCookie, b: &SessionCookie) -> (r: bool)
    ensures
        r == key_lt(triple_key(cookie_view(*a)), triple_key(cookie_view(*b))),
{
    text_less(&a.name, &b.name) || (str_eq(a.name.as_str(), b.name.as_str()) && text_less(&a.path, &b.path))
}

fn copy_cookie(c: &SessionCookie) -> (r: SessionCookie)
    ensures
        cookie_view(r) == cookie_view(*c),
{
    SessionCookie { name: c.name.clone(), value: c.value.clone(), path: c.path.clone() }
}

/// The cookies that the window read for the elective host's paths: one per
/// name and path (the last one read wins), ordered by name, then path.
pub fn collect_cookies(found: &Vec<SessionCookie>) -> (r: Vec<SessionCookie>)
    ensures
        keys_ascending(cookie_triples(r@)),
        forall|j: int| 0 <= j < r@.len() ==> latest_in(cookie_triples(found@), found@.len() as int, #[trigger] cookie_triples(r@)[j]),
        forall|i: int| 0 <= i < found@.len() ==> key_present(cookie_triples(r@), triple_key(#[trigger] cookie_triples(found@)[i])),
{
    let ghost fv = cookie_triples(found@);
    let mut out: Vec<SessionCookie> = Vec::new();
    let mut k: usize = 0;
    while k < found.len()
        invariant
            k <= found.len(),
            fv == cookie_triples(found@),
            keys_ascending(cookie_triples(out@)),
            forall|j: int| 0 <= j < out@.len() ==> latest_in(fv, k as int, #[trigger] cookie_triples(out@)[j]),
            forall|i: int| 0 <= i < k ==> key_present(cookie_triples(out@), triple_key(#[trigger] fv[i])),
        decreases found.len() - k,
    {
        let c = &found[k];
        let ghost t = fv[k as int];
        assert(t == cookie_view(*c));
        let ghost before = cookie_triples(out@);
        let mut p: usize = 0;
        while p < out.len() && key_less(&out[p], c)
            invariant
                p <= out.len(),
                before == cookie_triples(out@),
                t == cookie_view(*c),
                forall|j: int| 0 <= j < p ==> key_lt(#[trigger] triple_key(before[j]), triple_key(t)),
            decreases out.len() - p,
        {
            assert(before[p as int] == cookie_view(out@[p as int]));
            p += 1;
        }
        let same = p < out.len() && str_eq(out[p].name.as_str(), c.name.as_str()) && str_eq(out[p].path.as_str(), c.path.as_str());
        if same {
            assert(before[p as int] == cookie_view(out@[p as int]));
            assert(triple_key(before[p as int]) == triple_key(t));
            out.set(p, copy_cookie(c));
            let ghost after = cookie_triples(out@);
            assert(after =~= before.update(p as int, t));
            proof {
                assert forall|i: int, j: int| 0 <= i < j < after.len() implies key_lt(#[trigger] triple_key(after[i]), #[trigger] triple_key(after[j])) by {
                    assert(triple_key(after[i]) == triple_key(before[i]));
                    assert(triple_key(after[j]) == triple_key(before[j]));
                }
                assert forall|j: int| 0 <= j < after.len() implies latest_in(fv, k + 1, #[trigger] after[j]) by {
                    if j == p {
                        assert(fv[k as int] == after[j]);
                    } else {
                        assert(after[j] == before[j]);
                        assert(latest_in(fv, k as int, before[j]));
                        let i0 = choose|i: int| 0 <= i < k && fv[i] == before[j]
                            && forall|m: int| i < m < k ==> triple_key(#[trigger] fv[m]) != triple_key(before[j]);
                        lemma_key_order(triple_key(before[j]), triple_key(before[p as int]), triple_key(before[p as int]));
                        lemma_key_order(triple_key(before[p as int]), triple_key(before[j]), triple_key(before[j]));
                        if j < p {
                            assert(key_lt(triple_key(before[j]), triple_key(before[p as int])));
                        } else {
                            assert(key_lt(triple_key(before[p as int]), triple_key(before[j])));
                        }
                        assert(triple_key(fv[k as int]) != triple_key(before[j]));
                        assert(forall|m: int| i0 < m < k + 1 ==> triple_key(#[trigger] fv[m]) != triple_key(after[j]));
                    }
                }
                assert forall|i: int| 0 <= i < k + 1 implies key_present(after, triple_key(#[trigger] fv[i])) by {
                    if i == k {
                        assert(triple_key(after[p as int]) == triple_key(fv[i]));
                    } else {
                        assert(key_present(before, triple_key(fv[i])));
                        let j0 = choose|j: int| 0 <= j < before.len() && triple_key(#[trigger] before[j]) == triple_key(fv[i]);
                        assert(triple_key(after[j0]) == triple_key(before[j0]));
                    }
                }
            }
        } else {
            proof {
                if p < before.len() {
                    assert(before[p as int] == cookie_view(out@[p as int]));
                    assert(!key_lt(triple_key(before[p as int]), triple_key(t)));
                    assert(triple_key(before[p as int]) != triple_key(t));
                    lemma_key_order(triple_key(t), triple_key(before[p as int]), triple_key(t));
                    assert(key_lt(triple_key(t), triple_key(before[p as int])));
                }
            }
            out.insert(p, copy_cookie(c));
            let ghost after = cookie_triples(out@);
            assert(after =~= before.insert(p as int, t));
            proof {
                before.insert_ensures(p as int, t);
                assert forall|j: int| p <= j < before.len() implies key_lt(triple_key(t), #[trigger] triple_key(before[j])) by {
                    if j > p {
                        assert(key_lt(triple_key(before[p as int]), triple_key(before[j])));
                        lemma_key_order(triple_key(t), triple_key(before[p as int]), triple_key(before[j]));
                    }
                }
                assert forall|i: int, j: int| 0 <= i < j < after.len() implies key_lt(#[trigger] triple_key(after[i]), #[trigger] triple_key(after[j])) by {
                    if j < p {
                        assert(after[i] == before[i] && after[j] == before[j]);
                    } else if j == p {
                        assert(after[i] == before[i]);
                    } else if i < p {
                        assert(after[i] == before[i] && after[j] == before[j - 1]);
                        assert(key_lt(triple_key(before[i]), triple_key(t)));
                        assert(key_lt(triple_key(t), triple_key(before[j - 1])));
                        lemma_key_order(triple_key(before[i]), triple_key(t), triple_key(before[j - 1]));
                    } else if i == p {
                        assert(after[j] == before[j - 1]);
                    } else {
                        assert(after[i] == before[i - 1] && after[j] == before[j - 1]);
                    }
                }
                assert forall|j: int| 0 <= j < after.len() implies latest_in(fv, k + 1, #[trigger] after[j]) by {
                    if j == p {
                        assert(fv[k as int] == after[j]);
                    } else {
                        let jj = if j < p { j } else { j - 1 };
                        assert(after[j] == before[jj]);
                        assert(latest_in(fv, k as int, before[jj]));
                        let i0 = choose|i: int| 0 <= i < k && fv[i] == before[jj]
                            && forall|m: int| i < m < k ==> triple_key(#[trigger] fv[m]) != triple_key(before[jj]);
                        lemma_key_order(triple_key(t), triple_key(t), triple_key(t));
                        lemma_key_order(triple_key(before[jj]), triple_key(before[jj]), triple_key(before[jj]));
                        if jj < p {
                            assert(key_lt(triple_key(before[jj]), triple_key(t)));
                        } else {
                            assert(key_lt(triple_key(t), triple_key(before[jj])));
                        }
                        assert(triple_key(fv[k as int]) != triple_key(before[jj]));
                        assert(forall|m: int| i0 < m < k + 1 ==> triple_key(#[trigger] fv[m]) != triple_key(after[j]));
                    }
                }
                assert forall|i: int| 0 <= i < k + 1 implies key_present(after, triple_key(#[trigger] fv[i])) by {
                    if i == k {
                        assert(triple_key(after[p as int]) == triple_key(fv[i]));
                    } else {
                        assert(key_present(before, triple_key(fv[i])));
                        let j0 = choose|j: int| 0 <= j < before.len() && triple_key(#[trigger] before[j]) == triple_key(fv[i]);
                        if j0 < p {
                            assert(after[j0] == before[j0]);
                        } else {
                            assert(after[j0 + 1] == before[j0]);
                        }
                    }
                }
            }
        }
        k += 1;
    }
    out
}

} // verus!
