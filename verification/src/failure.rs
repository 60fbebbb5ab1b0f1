//! Why an operation failed: a chain of messages, outermost first, and the
//! kind of the innermost cause, which decides how the window reacts.
use vstd::prelude::*;
use crate::text::{join_seq, join_strings, owned};

verus! {

/// The cause at the root of a failure.
#[derive(Clone, Copy, Debug, PartialEq, Eq, Structural)]
pub enum FailureKind {
    /// The campus VPN gateway answered instead of the elective system.
    VpnRequired,
    /// The elective system no longer accepts the login token.
    SessionExpired,
    /// Anything else.
    Other,
}

/// A failure: `messages[0]` is the outermost description, later ones the
/// causes it wraps.
#[derive(Clone, Debug)]
pub struct Failure {
    pub kind: FailureKind,
    pub messages: Vec<String>,
}

/// The model of a failure.
pub struct FailureView {
    pub kind: FailureKind,
    pub messages: Seq<Seq<char>>,
}

impl View for Failure {
    type V = FailureView;

    open spec fn view(&self) -> FailureView {
        FailureView { kind: self.kind, messages: self.messages@.map_values(|m: String| m@) }
    }
}

/// What the window shows when the campus network or VPN must be connected.
pub const VPN_GUIDANCE: &'static str = "选课网关要求本程序完成 VPN 验证（不代表 aTrust 没有连接）。\n如果普通浏览器能访问，请点击“VPN 浏览器授权”，在独立窗口完成学校认证，再点击窗口中的“完成授权并检测”。\n仅打开外部浏览器不会把认证状态传给本程序；校内也可直接连接校园网后重试。";

/// A failure with one message and no wrapped cause.
pub open spec fn simple_failure(kind: FailureKind, message: Seq<char>) -> FailureView {
    FailureView { kind, messages: seq![message] }
}

impl Failure {
    /// A failure of kind `Other` with one message.
    pub fn msg(message: &str) -> (r: Failure)
        ensures
            r@ == simple_failure(FailureKind::Other, message@),
    {
        Failure::of_kind(FailureKind::Other, owned(message))
    }

    /// A failure of the given kind with one message.
    pub fn of_kind(kind: FailureKind, message: String) -> (r: Failure)
        ensures
            r@ == simple_failure(kind, message@),
    {
        let mut messages: Vec<String> = Vec::new();
        let ghost m = message@;
        messages.push(message);
        assert(messages@.map_values(|s: String| s@) =~= seq![m]);
        Failure { kind, messages }
    }

    /// The VPN gateway's demand, whose text guides the user to connect.
    pub fn vpn_required() -> (r: Failure)
        ensures
            r@ == simple_failure(FailureKind::VpnRequired, VPN_GUIDANCE@),
    {
        Failure::of_kind(FailureKind::VpnRequired, owned(VPN_GUIDANCE))
    }

    /// This failure wrapped in an outer description.
    pub fn context(self, message: String) -> (r: Failure)
        ensures
            r@.kind == self@.kind,
            r@.messages == seq![message@] + self@.messages,
    {
        let mut messages: Vec<String> = Vec::new();
        let ghost m = message@;
        messages.push(message);
        let ghost rest = self.messages@;
        let mut old_messages = self.messages;
        messages.append(&mut old_messages);
        assert(messages@ == seq![message] + rest) by {
            assert(messages@ =~= seq![messages@[0]] + rest);
        }
        assert(messages@.map_values(|s: String| s@) =~= seq![m] + rest.map_values(|s: String| s@));
        Failure { kind: self.kind, messages }
    }

    /// Whether the root cause is the VPN gateway.
    pub fn is_vpn_required(&self) -> (r: bool)
        ensures
            r == (self.kind == FailureKind::VpnRequired),
    {
        self.kind == FailureKind::VpnRequired
    }

    /// Whether the root cause is an expired login.
    pub fn is_session_expired(&self) -> (r: bool)
        ensures
            r == (self.kind == FailureKind::SessionExpired),
    {
        self.kind == FailureKind::SessionExpired
    }

    /// Whether the failure wraps a cause in an outer description.
    pub fn has_context(&self) -> (r: bool)
        ensures
            r == (self@.messages.len() > 1),
    {
        self.messages.len() > 1
    }

    /// The outermost description (what `to_string` shows).
    pub fn message(&self) -> (r: String)
        ensures
            r@ == (if self@.messages.len() > 0 { self@.messages[0] } else { Seq::<char>::empty() }),
    {
        if self.messages.len() > 0 {
            self.messages[0].clone()
        } else {
            String::new()
        }
    }

    /// Every description, outermost first, joined by `: ` (what `{:#}` shows).
    pub fn report(&self) -> (r: String)
        ensures
            r@ == join_seq(self@.messages, ": "@),
    {
        join_strings(self.messages.as_slice(), ": ")
    }
}

} // verus!
