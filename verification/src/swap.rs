//! Swapping a chosen course A for a target course B: A is dropped only once
//! a fresh list shows a free seat in B; B is then chosen, and where the
//! system refuses B, A is chosen again. An answer that leaves the outcome
//! open ends the task at once.
use vstd::prelude::*;
use crate::api::{message_or, response_message};
use crate::failure::{Failure, FailureKind};
use crate::json::{JsonValue, JsonView};
use crate::model::{enrolled_spec, has_available_seat_spec, Course};
use crate::rob::{course_id_spec, courses_view, selection_succeeded, selection_succeeded_spec, strings_view, WorkerEvent};
use crate::rounds::{list_pause, name_spec};
use crate::text::{append_str, int_decimal, join_seq, owned, str_eq, decimal_of_u128};

verus! {

// ---------------------------------------------------------------------------
// Choosing A and B
// ---------------------------------------------------------------------------

pub open spec fn not_two_message() -> Seq<char> {
    "换课模式请只勾选两门：当前已选 A 和目标 B"@
}

pub open spec fn no_current_message() -> Seq<char> {
    "两门课程中没有识别到当前已选课程 A（状态应显示“已选”）"@
}

pub open spec fn no_target_message() -> Seq<char> {
    "两门课程中没有目标课程 B"@
}

/// A and B among the ticked courses: exactly two must be ticked; A is the
/// first already chosen, B the first not chosen.
pub open spec fn swap_pair_spec(rows: Seq<JsonView>) -> Result<(JsonView, JsonView), Seq<char>> {
    if rows.len() != 2 {
        Err(not_two_message())
    } else if !enrolled_spec(rows[0]) && !enrolled_spec(rows[1]) {
        Err(no_current_message())
    } else if enrolled_spec(rows[0]) && enrolled_spec(rows[1]) {
        Err(no_target_message())
    } else if enrolled_spec(rows[0]) {
        Ok((rows[0], rows[1]))
    } else {
        Ok((rows[1], rows[0]))
    }
}

/// The current course A and the target B among the ticked courses, or the
/// message that the window shows instead.
pub fn swap_pair(selected: &Vec<Course>) -> (r: Result<(Course, Course), String>)
    ensures
        match r {
            Ok((a, b)) => swap_pair_spec(courses_view(selected@)) == Ok::<(JsonView, JsonView), Seq<char>>((a.raw@, b.raw@)),
            Err(m) => swap_pair_spec(courses_view(selected@)) == Err::<(JsonView, JsonView), Seq<char>>(m@),
        },
{
    if selected.len() != 2 {
        return Err(owned("换课模式请只勾选两门：当前已选 A 和目标 B"));
    }
    let first = selected[0].enrolled();
    let second = selected[1].enrolled();
    assert(courses_view(selected@)[0] == selected@[0].raw@);
    assert(courses_view(selected@)[1] == selected@[1].raw@);
    if !first && !second {
        Err(owned("两门课程中没有识别到当前已选课程 A（状态应显示“已选”）"))
    } else if first && second {
        Err(owned("两门课程中没有目标课程 B"))
    } else if first {
        Ok((Course { raw: selected[0].raw.duplicate() }, Course { raw: selected[1].raw.duplicate() }))
    } else {
        Ok((Course { raw: selected[1].raw.duplicate() }, Course { raw: selected[0].raw.duplicate() }))
    }
}

// ---------------------------------------------------------------------------
// The task
// ---------------------------------------------------------------------------

/// Where a swap stands.
#[derive(Clone, Copy, Debug, PartialEq, Eq, Structural)]
pub enum SwapPhase {
    /// The first round has not begun.
    RoundStart,
    /// The list of courses with free seats was asked for.
    AwaitList,
    /// Pausing; the next round follows.
    PausedRound,
    /// A was submitted for dropping.
    AwaitDrop,
    /// B was submitted for choosing.
    AwaitSelect,
    /// A was submitted for choosing again.
    AwaitRollback,
    /// The swap is over.
    Done,
}

/// A swap of `current` (A) for `target` (B) over at most `rounds` rounds.
#[derive(Debug)]
pub struct SwapTask {
    pub current: Course,
    pub target: Course,
    pub fresh_target: Option<Course>,
    pub rounds: usize,
    pub interval_ms: u64,
    pub round: usize,
    pub reason: String,
    pub stopped: bool,
    pub phase: SwapPhase,
}

/// The model of a swap.
#[verifier::ext_equal]
pub struct SwapView {
    pub current: JsonView,
    pub target: JsonView,
    pub fresh: Option<JsonView>,
    pub rounds: nat,
    pub interval: u64,
    pub round: nat,
    pub reason: Seq<char>,
    pub stopped: bool,
    pub phase: SwapPhase,
}

impl View for SwapTask {
    type V = SwapView;

    open spec fn view(&self) -> SwapView {
        SwapView {
            current: self.current.raw@,
            target: self.target.raw@,
            fresh: match self.fresh_target {
                Some(c) => Some(c.raw@),
                None => None,
            },
            rounds: self.rounds as nat,
            interval: self.interval_ms,
            round: self.round as nat,
            reason: self.reason@,
            stopped: self.stopped,
            phase: self.phase,
        }
    }
}

/// What the swap hands back: a line for the status bar and the next thing
/// to do.
#[derive(Debug)]
pub struct SwapStep {
    pub status: Option<String>,
    pub action: SwapAction,
}

/// The next thing to do.
#[derive(Debug)]
pub enum SwapAction {
    /// Ask for the courses with free seats.
    FetchAvailable,
    /// Submit the dropping of A.
    Drop(Course),
    /// Wait `delay_ms`, then submit the choosing of B as the fresh list
    /// showed it.
    Select { course: Course, delay_ms: u64 },
    /// Submit the choosing of A again.
    Rollback(Course),
    /// Wait this many milliseconds (less where stopped), then resume.
    Wait(u64),
    /// The swap is over; report this to the window.
    Finished(WorkerEvent),
}

/// What the swap was waiting for.
#[derive(Debug)]
pub enum SwapAnswer {
    Resumed,
    Listed(Result<Vec<Course>, Failure>),
    Dropped(Result<JsonValue, Failure>),
    Selected(Result<JsonValue, Failure>),
    RolledBack(Result<JsonValue, Failure>),
}

/// The first row with the id `id`.
pub open spec fn find_id(rows: Seq<JsonView>, id: Seq<char>) -> Option<JsonView>
    decreases rows.len(),
{
    if rows.len() == 0 {
        None
    } else if course_id_spec(rows[0]) == id {
        Some(rows[0])
    } else {
        find_id(rows.drop_first(), id)
    }
}

pub open spec fn round_text(prefix: Seq<char>, round: nat, total: nat) -> Seq<char> {
    prefix + int_decimal(round as int) + "/"@ + int_decimal(total as int)
}

/// The status line where B is not in the fresh list.
pub open spec fn missing_status(v: SwapView) -> Seq<char> {
    round_text("未满课程查询 "@, v.round, v.rounds) + "："@ + name_spec(v.target) + " 暂无余量，保留 "@ + name_spec(v.current)
}

/// The status line where B is listed without a free seat.
pub open spec fn full_status(v: SwapView) -> Seq<char> {
    round_text("换课轮次 "@, v.round, v.rounds) + "："@ + name_spec(v.target) + " 暂无余量，保留 "@ + name_spec(v.current)
}

/// The status line where the list could not be read.
pub open spec fn list_failed_status(v: SwapView, report: Seq<char>) -> Seq<char> {
    round_text("换课轮次 "@, v.round, v.rounds) + "：刷新课程失败："@ + report
}

/// The status line before A is dropped.
pub open spec fn dropping_status(v: SwapView) -> Seq<char> {
    name_spec(v.target) + " 已有空位，正在退选 "@ + name_spec(v.current)
}

/// The report where B never had a free seat: nothing chosen, B left with a
/// note that A was kept.
pub open spec fn unswapped_fits(v: SwapView, e: WorkerEvent) -> bool {
    e matches WorkerEvent::RobFinished { successful, pending, failure }
        && successful@.len() == 0 && failure is None
        && strings_view(pending@) == seq![name_spec(v.target) + "（未出现空位，未退 "@ + name_spec(v.current) + "）"@]
}

pub open spec fn is_error(e: WorkerEvent, text: Seq<char>) -> bool {
    e matches WorkerEvent::Error(t) && t@ == text
}

pub open spec fn is_vpn_stop(e: WorkerEvent, text: Seq<char>) -> bool {
    match e {
        WorkerEvent::VpnRequired { task_finished, detail } => task_finished && match detail {
            Some(d) => d@ == text,
            None => false,
        },
        _ => false,
    }
}

pub open spec fn report_of(e: Failure) -> Seq<char> {
    join_seq(e@.messages, ": "@)
}

/// The invariant of a swap: at least one round, the current one among them;
/// B as listed is kept from the moment A is submitted for dropping.
pub open spec fn swap_wf(v: SwapView) -> bool {
    &&& 1 <= v.round <= v.rounds
    &&& (v.phase == SwapPhase::AwaitDrop || v.phase == SwapPhase::AwaitSelect) ==> v.fresh is Some
}

fn label(prefix: &str, round: usize, total: usize) -> (r: String)
    ensures
        r@ == round_text(prefix@, round as nat, total as nat),
{
    let mut s = owned(prefix);
    let a = decimal_of_u128(round as u128);
    append_str(&mut s, a.as_str());
    append_str(&mut s, "/");
    let b = decimal_of_u128(total as u128);
    append_str(&mut s, b.as_str());
    s
}

fn text3(a: &str, b: &str, c: &str) -> (r: String)
    ensures
        r@ == a@ + b@ + c@,
{
    let mut s = owned(a);
    append_str(&mut s, b);
    append_str(&mut s, c);
    s
}

fn find_by_id(rows: &Vec<Course>, id: &String) -> (r: Option<usize>)
    ensures
        match r {
            Some(k) => k < rows.len() && find_id(courses_view(rows@), id@) == Some(rows@[k as int].raw@),
            None => find_id(courses_view(rows@), id@) is None,
        },
{
    let ghost all = courses_view(rows@);
    let mut i: usize = 0;
    assert(all.skip(0) == all);
    while i < rows.len()
        invariant
            i <= rows.len(),
            all == courses_view(rows@),
            find_id(all, id@) == find_id(all.skip(i as int), id@),
        decreases rows.len() - i,
    {
        let other = rows[i].id();
        assert(all.skip(i as int)[0] == rows@[i as int].raw@);
        if str_eq(other.as_str(), id.as_str()) {
            return Some(i);
        }
        assert(all.skip(i as int).drop_first() == all.skip(i + 1));
        i += 1;
    }
    None
}

impl SwapTask {
    /// A swap of `current` for `target` over `max(rounds, 1)` rounds.
    pub fn new(current: Course, target: Course, rounds: usize, interval_ms: u64) -> (r: SwapTask)
        ensures
            r@.current == current.raw@,
            r@.target == target.raw@,
            r@.fresh is None,
            r@.rounds == (if rounds > 1 { rounds as nat } else { 1 }),
            r@.interval == interval_ms,
            r@.round == 1,
            !r@.stopped,
            r@.phase == SwapPhase::RoundStart,
            swap_wf(r@),
    {
        SwapTask {
            current,
            target,
            fresh_target: None,
            rounds: if rounds > 1 { rounds } else { 1 },
            interval_ms,
            round: 1,
            reason: String::new(),
            stopped: false,
            phase: SwapPhase::RoundStart,
        }
    }

    /// Whether `answer` is what the swap waits for.
    pub open spec fn accepts_spec(&self, answer: &SwapAnswer) -> bool {
        match self.phase {
            SwapPhase::RoundStart | SwapPhase::PausedRound => answer is Resumed,
            SwapPhase::AwaitList => answer is Listed,
            SwapPhase::AwaitDrop => answer is Dropped,
            SwapPhase::AwaitSelect => answer is Selected,
            SwapPhase::AwaitRollback => answer is RolledBack,
            SwapPhase::Done => false,
        }
    }

    /// Whether `answer` is what the swap waits for.
    pub fn accepts(&self, answer: &SwapAnswer) -> (r: bool)
        ensures
            r == self.accepts_spec(answer),
    {
        match self.phase {
            SwapPhase::RoundStart | SwapPhase::PausedRound => matches!(answer, SwapAnswer::Resumed),
            SwapPhase::AwaitList => matches!(answer, SwapAnswer::Listed(_)),
            SwapPhase::AwaitDrop => matches!(answer, SwapAnswer::Dropped(_)),
            SwapPhase::AwaitSelect => matches!(answer, SwapAnswer::Selected(_)),
            SwapPhase::AwaitRollback => matches!(answer, SwapAnswer::RolledBack(_)),
            SwapPhase::Done => false,
        }
    }

    fn end(&mut self, event: WorkerEvent) -> (r: SwapStep)
        ensures
            final(self)@ == (SwapView { phase: SwapPhase::Done, ..old(self)@ }),
            r.status is None,
            r.action == SwapAction::Finished(event),
    {
        self.phase = SwapPhase::Done;
        SwapStep { status: None, action: SwapAction::Finished(event) }
    }

    fn end_unswapped(&mut self) -> (r: SwapStep)
        ensures
            final(self)@ == (SwapView { phase: SwapPhase::Done, ..old(self)@ }),
            r.status is None,
            r.action matches SwapAction::Finished(e) && unswapped_fits(old(self)@, e),
    {
        let b = self.target.name();
        let a = self.current.name();
        let mut note = b;
        append_str(&mut note, "（未出现空位，未退 ");
        append_str(&mut note, a.as_str());
        append_str(&mut note, "）");
        let mut pending: Vec<String> = Vec::new();
        pending.push(note);
        assert(strings_view(pending@) =~= seq![name_spec(self@.target) + "（未出现空位，未退 "@ + name_spec(self@.current) + "）"@]);
        self.end(WorkerEvent::RobFinished { successful: Vec::new(), pending, failure: None })
    }

    fn pause(&mut self, status: String) -> (r: SwapStep)
        ensures
            final(self)@ == (SwapView { phase: SwapPhase::PausedRound, ..old(self)@ }),
            r.status == Some(status),
            r.action == SwapAction::Wait(list_pause(old(self)@.interval)),
    {
        self.phase = SwapPhase::PausedRound;
        let pause = if self.interval_ms > 500 { self.interval_ms } else { 500 };
        SwapStep { status: Some(status), action: SwapAction::Wait(pause) }
    }

    /// The next step after `answer`, with `stop_requested` telling whether
    /// the user asked the swap to stop.
    ///
    /// A is submitted for dropping only right after a list in which B has a
    /// free seat; B is submitted only after A was dropped; A is chosen again
    /// only after the system refused B. An error instead of an answer to any
    /// of these submissions ends the swap.
    pub fn step(&mut self, stop_requested: bool, answer: SwapAnswer) -> (r: SwapStep)
        requires
            old(self).accepts_spec(&answer),
            swap_wf(old(self)@),
        ensures
            swap_wf(final(self)@),
            final(self)@.current == old(self)@.current,
            final(self)@.target == old(self)@.target,
            final(self)@.rounds == old(self)@.rounds,
            old(self)@.round <= final(self)@.round <= old(self)@.round + 1,
            (r.action is Finished) <==> (final(self)@.phase == SwapPhase::Done),
            r.action is FetchAvailable ==> final(self)@.phase == SwapPhase::AwaitList
                && !final(self)@.stopped
                && (final(self)@.round == old(self)@.round + 1 || old(self)@.phase == SwapPhase::RoundStart),
            r.action matches SwapAction::Drop(c) ==> (c.raw@ == old(self)@.current
                && final(self)@.phase == SwapPhase::AwaitDrop
                && !final(self)@.stopped
                && (answer matches SwapAnswer::Listed(Ok(rows))
                && (find_id(courses_view(rows@), course_id_spec(old(self)@.target)) matches Some(b)
                && has_available_seat_spec(b) && final(self)@.fresh == Some(b)))),
            r.action matches SwapAction::Select { course, delay_ms } ==> (delay_ms == 300
                && final(self)@.phase == SwapPhase::AwaitSelect
                && Some(course.raw@) == old(self)@.fresh
                && (answer matches SwapAnswer::Dropped(Ok(body)) && selection_succeeded_spec(body@))),
            r.action matches SwapAction::Rollback(c) ==> (c.raw@ == old(self)@.current
                && final(self)@.phase == SwapPhase::AwaitRollback
                && (answer matches SwapAnswer::Selected(Ok(body)) && !selection_succeeded_spec(body@)
                && final(self)@.reason == message_or(body@, "未知响应"@))),
            ({
                let v = SwapView { stopped: old(self)@.stopped || stop_requested, ..old(self)@ };
                let a = name_spec(v.current);
                let b = name_spec(v.target);
                let done = SwapView { phase: SwapPhase::Done, ..v };
                let paused = SwapView { phase: SwapPhase::PausedRound, ..v };
                match answer {
                    SwapAnswer::Resumed => r.status is None && (
                        if v.phase == SwapPhase::PausedRound && v.round >= v.rounds {
                            final(self)@ == done && (r.action matches SwapAction::Finished(e) && unswapped_fits(v, e))
                        } else {
                            let w = if v.phase == SwapPhase::PausedRound { SwapView { round: v.round + 1, ..v } } else { v };
                            if v.stopped {
                                final(self)@ == (SwapView { phase: SwapPhase::Done, ..w })
                                    && (r.action matches SwapAction::Finished(e) && unswapped_fits(v, e))
                            } else {
                                final(self)@ == (SwapView { phase: SwapPhase::AwaitList, ..w }) && r.action is FetchAvailable
                            }
                        }),
                    SwapAnswer::Listed(Err(e)) => if e.kind == FailureKind::VpnRequired {
                        final(self)@ == done && (r.action matches SwapAction::Finished(ev)
                            && is_vpn_stop(ev, "VPN 验证失效，换课已停止；尚未提交退课请求。"@))
                    } else if e.kind == FailureKind::SessionExpired {
                        final(self)@ == done && (r.action matches SwapAction::Finished(ev)
                            && is_error(ev, "换课监控检测到登录会话失效，且未能自动恢复："@ + report_of(e)))
                    } else {
                        final(self)@ == paused && (r.status matches Some(s) && s@ == list_failed_status(v, report_of(e)))
                            && r.action == SwapAction::Wait(list_pause(v.interval))
                    },
                    SwapAnswer::Listed(Ok(rows)) => if v.stopped {
                        final(self)@ == done && (r.action matches SwapAction::Finished(e) && unswapped_fits(v, e))
                    } else {
                        match find_id(courses_view(rows@), course_id_spec(v.target)) {
                            None => final(self)@ == paused && (r.status matches Some(s) && s@ == missing_status(v))
                                && r.action == SwapAction::Wait(list_pause(v.interval)),
                            Some(fresh) => if !has_available_seat_spec(fresh) {
                                final(self)@ == paused && (r.status matches Some(s) && s@ == full_status(v))
                                    && r.action == SwapAction::Wait(list_pause(v.interval))
                            } else {
                                final(self)@ == (SwapView { fresh: Some(fresh), phase: SwapPhase::AwaitDrop, ..v })
                                    && (r.status matches Some(s) && s@ == dropping_status(v))
                                    && r.action is Drop
                            },
                        }
                    },
                    SwapAnswer::Dropped(Ok(body)) => if selection_succeeded_spec(body@) {
                        final(self)@ == (SwapView { phase: SwapPhase::AwaitSelect, ..v }) && r.status is None && r.action is Select
                    } else {
                        final(self)@ == done && (r.action matches SwapAction::Finished(ev)
                            && is_error(ev, "退选 "@ + a + " 失败："@ + message_or(body@, "未知响应"@)))
                    },
                    SwapAnswer::Dropped(Err(e)) => final(self)@ == done && (r.action matches SwapAction::Finished(ev) && (
                        if e.kind == FailureKind::VpnRequired {
                            is_vpn_stop(ev, "退选 "@ + a + " 时 VPN 验证失效，未继续选 B。请连接后检查 A、B 的实际选课状态。"@)
                        } else {
                            is_error(ev, "退选 "@ + a + " 请求异常："@ + report_of(e) + "\n结果未确认，未继续选 B；请核对实际已选课程。"@)
                        })),
                    SwapAnswer::Selected(Ok(body)) => if selection_succeeded_spec(body@) {
                        final(self)@ == done && (r.action matches SwapAction::Finished(WorkerEvent::RobFinished { successful, pending, failure })
                            && strings_view(successful@) == seq![name_spec(v.fresh.unwrap())]
                            && pending@.len() == 0 && failure is None)
                    } else {
                        final(self)@ == (SwapView { reason: message_or(body@, "未知响应"@), phase: SwapPhase::AwaitRollback, ..v })
                            && r.status is None && r.action is Rollback
                    },
                    SwapAnswer::Selected(Err(e)) => final(self)@ == done && (r.action matches SwapAction::Finished(ev) && (
                        if e.kind == FailureKind::VpnRequired {
                            is_vpn_stop(ev, "退 A 后选 B 时 VPN 验证失效，无法确认 B 或自动回选 A。请立即连接 VPN，并在选课系统核对 A、B 状态。"@)
                        } else {
                            is_error(ev, "选 B 请求异常："@ + report_of(e) + "\nB 的结果未确认，已停止，未自动回选 A。请立即核对 A、B 的实际选课状态。"@)
                        })),
                    SwapAnswer::RolledBack(Ok(body)) => final(self)@ == done && (r.action matches SwapAction::Finished(ev)
                        && is_error(ev, "B 选课失败："@ + v.reason + "；"@ + (if selection_succeeded_spec(body@) {
                            "已尝试回选 A"@
                        } else {
                            "回选 A 失败："@ + message_or(body@, "未知响应"@)
                        }))),
                    SwapAnswer::RolledBack(Err(e)) => final(self)@ == done && (r.action matches SwapAction::Finished(ev) && (
                        if e.kind == FailureKind::VpnRequired {
                            is_vpn_stop(ev, "B 选课失败："@ + v.reason + "；回选 A 时 VPN 验证失效。请立即连接 VPN，并在选课系统核对 A、B 状态。"@)
                        } else {
                            is_error(ev, "B 选课失败："@ + v.reason + "；回选 A 失败："@ + report_of(e))
                        })),
                }
            }),
    {
        self.stopped = self.stopped || stop_requested;
        let ghost v = self@;
        match answer {
            SwapAnswer::Resumed => {
                if self.phase == SwapPhase::PausedRound {
                    if self.round >= self.rounds {
                        return self.end_unswapped();
                    }
                    self.round = self.round + 1;
                }
                if self.stopped {
                    return self.end_unswapped();
                }
                self.phase = SwapPhase::AwaitList;
                SwapStep { status: None, action: SwapAction::FetchAvailable }
            },
            SwapAnswer::Listed(Err(e)) => {
                if e.is_vpn_required() {
                    self.end(WorkerEvent::VpnRequired {
                        task_finished: true,
                        detail: Some(owned("VPN 验证失效，换课已停止；尚未提交退课请求。")),
                    })
                } else if e.is_session_expired() {
                    let mut text = owned("换课监控检测到登录会话失效，且未能自动恢复：");
                    let report = e.report();
                    append_str(&mut text, report.as_str());
                    self.end(WorkerEvent::Error(text))
                } else {
                    let mut status = label("换课轮次 ", self.round, self.rounds);
                    append_str(&mut status, "：刷新课程失败：");
                    let report = e.report();
                    append_str(&mut status, report.as_str());
                    self.pause(status)
                }
            },
            SwapAnswer::Listed(Ok(rows)) => {
                if self.stopped {
                    return self.end_unswapped();
                }
                let id = self.target.id();
                let b = self.target.name();
                let a = self.current.name();
                match find_by_id(&rows, &id) {
                    None => {
                        let mut status = label("未满课程查询 ", self.round, self.rounds);
                        append_str(&mut status, "：");
                        append_str(&mut status, b.as_str());
                        append_str(&mut status, " 暂无余量，保留 ");
                        append_str(&mut status, a.as_str());
                        self.pause(status)
                    },
                    Some(k) => {
                        if !rows[k].has_available_seat() {
                            let mut status = label("换课轮次 ", self.round, self.rounds);
                            append_str(&mut status, "：");
                            append_str(&mut status, b.as_str());
                            append_str(&mut status, " 暂无余量，保留 ");
                            append_str(&mut status, a.as_str());
                            self.pause(status)
                        } else {
                            let status = text3(b.as_str(), " 已有空位，正在退选 ", a.as_str());
                            self.fresh_target = Some(Course { raw: rows[k].raw.duplicate() });
                            self.phase = SwapPhase::AwaitDrop;
                            let drop = Course { raw: self.current.raw.duplicate() };
                            SwapStep { status: Some(status), action: SwapAction::Drop(drop) }
                        }
                    },
                }
            },
            SwapAnswer::Dropped(Ok(body)) => {
                let a = self.current.name();
                if selection_succeeded(&body) {
                    let fresh = match &self.fresh_target {
                        Some(c) => Course { raw: c.raw.duplicate() },
                        None => Course { raw: self.target.raw.duplicate() },
                    };
                    self.phase = SwapPhase::AwaitSelect;
                    SwapStep { status: None, action: SwapAction::Select { course: fresh, delay_ms: 300 } }
                } else {
                    let msg = response_message(&body);
                    let mut text = text3("退选 ", a.as_str(), " 失败：");
                    append_str(&mut text, msg.as_str());
                    self.end(WorkerEvent::Error(text))
                }
            },
            SwapAnswer::Dropped(Err(e)) => {
                let a = self.current.name();
                if e.is_vpn_required() {
                    let text = text3("退选 ", a.as_str(), " 时 VPN 验证失效，未继续选 B。请连接后检查 A、B 的实际选课状态。");
                    self.end(WorkerEvent::VpnRequired { task_finished: true, detail: Some(text) })
                } else {
                    let mut text = text3("退选 ", a.as_str(), " 请求异常：");
                    let report = e.report();
                    append_str(&mut text, report.as_str());
                    append_str(&mut text, "\n结果未确认，未继续选 B；请核对实际已选课程。");
                    self.end(WorkerEvent::Error(text))
                }
            },
            SwapAnswer::Selected(Ok(body)) => {
                if selection_succeeded(&body) {
                    let name = match &self.fresh_target {
                        Some(c) => c.name(),
                        None => self.target.name(),
                    };
                    let mut successful: Vec<String> = Vec::new();
                    successful.push(name);
                    self.end(WorkerEvent::RobFinished { successful, pending: Vec::new(), failure: None })
                } else {
                    self.reason = response_message(&body);
                    self.phase = SwapPhase::AwaitRollback;
                    let again = Course { raw: self.current.raw.duplicate() };
                    SwapStep { status: None, action: SwapAction::Rollback(again) }
                }
            },
            SwapAnswer::Selected(Err(e)) => {
                if e.is_vpn_required() {
                    self.end(WorkerEvent::VpnRequired {
                        task_finished: true,
                        detail: Some(owned("退 A 后选 B 时 VPN 验证失效，无法确认 B 或自动回选 A。请立即连接 VPN，并在选课系统核对 A、B 状态。")),
                    })
                } else {
                    let report = e.report();
                    let text = text3("选 B 请求异常：", report.as_str(), "\nB 的结果未确认，已停止，未自动回选 A。请立即核对 A、B 的实际选课状态。");
                    self.end(WorkerEvent::Error(text))
                }
            },
            SwapAnswer::RolledBack(Ok(body)) => {
                let mut text = text3("B 选课失败：", self.reason.as_str(), "；");
                if selection_succeeded(&body) {
                    append_str(&mut text, "已尝试回选 A");
                } else {
                    let mut tail = owned("回选 A 失败：");
                    let msg = response_message(&body);
                    append_str(&mut tail, msg.as_str());
                    append_str(&mut text, tail.as_str());
                }
                self.end(WorkerEvent::Error(text))
            },
            SwapAnswer::RolledBack(Err(e)) => {
                if e.is_vpn_required() {
                    let detail = text3("B 选课失败：", self.reason.as_str(), "；回选 A 时 VPN 验证失效。请立即连接 VPN，并在选课系统核对 A、B 状态。");
                    self.end(WorkerEvent::VpnRequired { task_finished: true, detail: Some(detail) })
                } else {
                    let mut text = text3("B 选课失败：", self.reason.as_str(), "；回选 A 失败：");
                    let report = e.report();
                    append_str(&mut text, report.as_str());
                    self.end(WorkerEvent::Error(text))
                }
            },
        }
    }
}

} // verus!
