//! The rounds of a selection task: which course is submitted next, when the
//! list of free courses is asked for, and when the task ends.
//!
//! The task is driven from outside: each answer (a list, the answer to a
//! submission, or the end of a pause) goes to `RobTask::step`, which says
//! what to do next. Whether the user asked to stop is handed in with each
//! answer.
use vstd::prelude::*;
use crate::api::code_spec;
use crate::failure::{Failure, FailureKind};
use crate::json::{str_in, JsonValue, JsonView};
use crate::model::{course_text, has_available_seat_spec, Course};
use crate::rob::{
    available_candidates, candidate_spec, candidates_spec, course_id_spec, courses_view,
    selection_succeeded, selection_succeeded_spec, strings_view, submission_error_text,
    stop_after_submission_error,
};
use crate::text::{append_str, decimal_of_i64, decimal_of_u128, int_decimal, join_seq, opt_view, owned};

verus! {

/// Where a selection task stands.
#[derive(Clone, Copy, Debug, PartialEq, Eq, Structural)]
pub enum RobPhase {
    /// The first round has not begun.
    RoundStart,
    /// The list of courses with free seats was asked for.
    AwaitList,
    /// The course at `index` was submitted.
    AwaitSubmit,
    /// Pausing; the next round follows.
    PausedRound,
    /// Pausing after the course at `index`; the next course follows.
    PausedCourse,
    /// The task is over.
    Done,
}

/// A selection task: `pending` are the courses of the current round,
/// `next` those of them kept for the next round.
#[derive(Debug)]
pub struct RobTask {
    pub select_any_available: bool,
    pub click_times: usize,
    pub click_interval_ms: u64,
    pub round: usize,
    pub pending: Vec<Course>,
    pub next: Vec<Course>,
    pub index: usize,
    pub successful: Vec<String>,
    pub successful_ids: Vec<String>,
    pub failure: Option<String>,
    pub stopped: bool,
    pub phase: RobPhase,
}

/// The model of a selection task.
#[verifier::ext_equal]
pub struct RobView {
    pub any: bool,
    pub click_times: nat,
    pub interval: u64,
    pub round: nat,
    pub pending: Seq<JsonView>,
    pub next: Seq<JsonView>,
    pub index: nat,
    pub successful: Seq<Seq<char>>,
    pub successful_ids: Seq<Seq<char>>,
    pub failure: Option<Seq<char>>,
    pub stopped: bool,
    pub phase: RobPhase,
}

impl View for RobTask {
    type V = RobView;

    open spec fn view(&self) -> RobView {
        RobView {
            any: self.select_any_available,
            click_times: self.click_times as nat,
            interval: self.click_interval_ms,
            round: self.round as nat,
            pending: courses_view(self.pending@),
            next: courses_view(self.next@),
            index: self.index as nat,
            successful: strings_view(self.successful@),
            successful_ids: strings_view(self.successful_ids@),
            failure: opt_view(self.failure),
            stopped: self.stopped,
            phase: self.phase,
        }
    }
}

/// What the task hands back: a line for the status bar, a failure that the
/// window shows as a VPN demand, and the next thing to do.
#[derive(Debug)]
pub struct RobStep {
    pub status: Option<String>,
    pub alert: Option<Failure>,
    pub action: RobAction,
}

/// The next thing to do.
#[derive(Debug)]
pub enum RobAction {
    /// Ask for the courses with free seats.
    FetchAvailable,
    /// Submit the selection of this course.
    Submit(Course),
    /// Wait this many milliseconds (less where stopped), then resume.
    Wait(u64),
    /// The task is over: the names chosen, the names left, and why it
    /// stopped where a submission had no certain answer.
    Finished { successful: Vec<String>, pending: Vec<String>, failure: Option<String> },
}

/// What the task was waiting for.
#[derive(Debug)]
pub enum RobAnswer {
    /// A pause ended (or the task is begun).
    Resumed,
    /// The courses with free seats, or why they could not be read.
    Listed(Result<Vec<Course>, Failure>),
    /// The answer to the last submission, or why there was none.
    Submitted(Result<JsonValue, Failure>),
}

// ---------------------------------------------------------------------------
// The model of the rounds
// ---------------------------------------------------------------------------

/// The name of a course row.
pub open spec fn name_spec(raw: JsonView) -> Seq<char> {
    course_text(raw, "KCM"@)
}

pub open spec fn names_spec(rows: Seq<JsonView>) -> Seq<Seq<char>> {
    rows.map_values(|r: JsonView| name_spec(r))
}

/// Whether the course at `index` is passed over without a submission: the
/// task is stopping, or in the any-course mode the course has no free seat.
pub open spec fn passed_over(v: RobView) -> bool {
    v.stopped || (v.any && !has_available_seat_spec(v.pending[v.index as int]))
}

/// A round begins: it ends the task where the task is stopping or, outside
/// the any-course mode, nothing is left; else it asks for the list (any-course
/// mode) or submits the first course.
pub open spec fn open_round(v: RobView) -> RobView {
    if v.stopped || (!v.any && v.pending.len() == 0) {
        RobView { phase: RobPhase::Done, ..v }
    } else if v.any {
        RobView { phase: RobPhase::AwaitList, ..v }
    } else {
        RobView { phase: RobPhase::AwaitSubmit, index: 0, ..v }
    }
}

/// A round ends: the courses kept become the next round's, which begins
/// unless this was the last round.
pub open spec fn close_round(v: RobView) -> RobView {
    let w = RobView { pending: v.next, next: Seq::empty(), index: 0, ..v };
    if w.round >= w.click_times {
        RobView { phase: RobPhase::Done, ..w }
    } else {
        open_round(RobView { round: w.round + 1, ..w })
    }
}

/// From the course at `index` on: the courses passed over are kept for the
/// next round; the first one that is not is submitted; past the last one
/// the round ends.
pub open spec fn advance(v: RobView) -> RobView
    decreases v.pending.len() - v.index,
{
    if v.index < v.pending.len() {
        if passed_over(v) {
            advance(RobView { next: v.next.push(v.pending[v.index as int]), index: v.index + 1, ..v })
        } else {
            RobView { phase: RobPhase::AwaitSubmit, ..v }
        }
    } else {
        close_round(v)
    }
}

/// The action that goes with a state reached by `step`.
pub open spec fn action_fits(v: RobView, a: RobAction) -> bool {
    match a {
        RobAction::FetchAvailable => v.phase == RobPhase::AwaitList,
        RobAction::Submit(c) => v.phase == RobPhase::AwaitSubmit && v.index < v.pending.len()
            && c.raw@ == v.pending[v.index as int],
        RobAction::Wait(_) => v.phase == RobPhase::PausedRound || v.phase == RobPhase::PausedCourse,
        RobAction::Finished { successful, pending, failure } => v.phase == RobPhase::Done
            && strings_view(successful@) == v.successful
            && strings_view(pending@) == names_spec(v.pending)
            && opt_view(failure) == v.failure,
    }
}

/// The invariant of a task: at least one round, the current one among them;
/// a course at hand while submitting or pausing after it; and in the
/// any-course mode, every course still to come in the round is a candidate.
pub open spec fn rob_wf(v: RobView) -> bool {
    &&& 1 <= v.round <= v.click_times
    &&& v.phase == RobPhase::AwaitList ==> v.any
    &&& (v.phase == RobPhase::AwaitSubmit || v.phase == RobPhase::PausedCourse) ==> v.index < v.pending.len()
    &&& v.phase == RobPhase::AwaitSubmit ==> !passed_over(v)
    &&& (v.any && (v.phase == RobPhase::AwaitSubmit || v.phase == RobPhase::PausedCourse)) ==>
        forall|k: int| v.index <= k < v.pending.len() ==> #[trigger] candidate_spec(v.pending[k], v.successful_ids)
}

/// The status line after the list of free courses was read.
pub open spec fn list_status(round: nat, total: nat, found: nat) -> Seq<char> {
    "任意未满课程查询 "@ + int_decimal(round as int) + "/"@ + int_decimal(total as int) + "：发现 "@
        + int_decimal(found as int) + " 门可选课程"@
}

/// The status line after the list could not be read.
pub open spec fn refresh_failed_status(round: nat, total: nat, report: Seq<char>) -> Seq<char> {
    "余量监控 "@ + int_decimal(round as int) + "/"@ + int_decimal(total as int) + " 刷新失败："@ + report
}

/// Why the task ends when the login could not be restored.
pub open spec fn expired_text(report: Seq<char>) -> Seq<char> {
    "登录会话已失效，且未能自动恢复："@ + report + "\n任务已停止，请重新登录后再试。"@
}

/// The `msg` member if it is a text, else nothing.
pub open spec fn msg_text(body: JsonView) -> Seq<char> {
    match str_in(body.get("msg"@)) {
        Some(m) => m,
        None => Seq::empty(),
    }
}

/// The status line after an answer to a submission.
pub open spec fn submit_status(round: nat, total: nat, name: Seq<char>, body: JsonView) -> Seq<char> {
    "轮次 "@ + int_decimal(round as int) + "/"@ + int_decimal(total as int) + " | "@ + name + ": code="@
        + int_decimal(code_spec(body) as int) + ", "@ + msg_text(body)
}

/// The pause after a list: the click interval, never below half a second.
pub open spec fn list_pause(interval: u64) -> u64 {
    if interval > 500 { interval } else { 500 }
}

// ---------------------------------------------------------------------------
// Lemmas on the model
// ---------------------------------------------------------------------------

/// What `open_round` keeps and where it leads.
pub proof fn lemma_open_round(v: RobView)
    ensures
        ({
            let w = open_round(v);
            &&& w.successful == v.successful && w.successful_ids == v.successful_ids
            &&& w.failure == v.failure && w.stopped == v.stopped && w.round == v.round
            &&& w.pending == v.pending && w.any == v.any && w.click_times == v.click_times
            &&& w.interval == v.interval
            &&& w.phase == RobPhase::Done || w.phase == RobPhase::AwaitList || w.phase == RobPhase::AwaitSubmit
            &&& w.phase == RobPhase::AwaitList ==> v.any && !v.stopped
            &&& w.phase == RobPhase::AwaitSubmit ==> !v.any && !v.stopped && w.index == 0 && w.index < w.pending.len()
            &&& v.stopped ==> w.phase == RobPhase::Done
        }),
{
}

/// What `advance` keeps and where it leads.
pub proof fn lemma_advance(v: RobView)
    requires
        v.index <= v.pending.len(),
        1 <= v.round <= v.click_times,
    ensures
        ({
            let w = advance(v);
            &&& w.successful == v.successful && w.successful_ids == v.successful_ids
            &&& w.failure == v.failure && w.stopped == v.stopped
            &&& w.any == v.any && w.click_times == v.click_times && w.interval == v.interval
            &&& v.round <= w.round <= v.click_times
            &&& w.round <= v.round + 1
            &&& w.phase == RobPhase::Done || w.phase == RobPhase::AwaitList || w.phase == RobPhase::AwaitSubmit
            &&& w.phase == RobPhase::AwaitSubmit ==> w.index < w.pending.len() && !passed_over(w)
            &&& w.phase == RobPhase::AwaitSubmit && w.round == v.round ==> w.pending == v.pending && w.index >= v.index
            &&& w.phase == RobPhase::AwaitSubmit && w.round != v.round ==> !v.any
            &&& w.phase == RobPhase::AwaitList ==> w.round == v.round + 1 && v.any && !v.stopped
            &&& v.stopped ==> w.phase == RobPhase::Done
        }),
    decreases v.pending.len() - v.index,
{
    if v.index < v.pending.len() {
        if passed_over(v) {
            lemma_advance(RobView { next: v.next.push(v.pending[v.index as int]), index: v.index + 1, ..v });
        }
    } else {
        let w = RobView { pending: v.next, next: Seq::empty(), index: 0, ..v };
        if w.round < w.click_times {
            lemma_open_round(RobView { round: w.round + 1, ..w });
        }
    }
}

/// Every element of the candidates of `rows` is a candidate.
pub proof fn lemma_candidates(rows: Seq<JsonView>, taken: Seq<Seq<char>>)
    ensures
        forall|k: int| 0 <= k < candidates_spec(rows, taken).len() ==> #[trigger] candidate_spec(candidates_spec(rows, taken)[k], taken),
    decreases rows.len(),
{
    if rows.len() > 0 {
        lemma_candidates(rows.drop_last(), taken);
        let rest = candidates_spec(rows.drop_last(), taken);
        let all = candidates_spec(rows, taken);
        assert forall|k: int| 0 <= k < all.len() implies #[trigger] candidate_spec(all[k], taken) by {
            if k < rest.len() {
                assert(all[k] == rest[k]);
            }
        }
    }
}

// ---------------------------------------------------------------------------
// The task
// ---------------------------------------------------------------------------

fn dup_course(c: &Course) -> (r: Course)
    ensures
        r.raw@ == c.raw@,
{
    Course { raw: c.raw.duplicate() }
}

fn names_of(rows: &Vec<Course>) -> (r: Vec<String>)
    ensures
        strings_view(r@) == names_spec(courses_view(rows@)),
{
    let mut out: Vec<String> = Vec::new();
    let mut i: usize = 0;
    while i < rows.len()
        invariant
            i <= rows.len(),
            strings_view(out@) == names_spec(courses_view(rows@)).take(i as int),
        decreases rows.len() - i,
    {
        let ghost before = out@;
        out.push(rows[i].name());
        assert(strings_view(out@) =~= strings_view(before).push(name_spec(rows@[i as int].raw@)));
        assert(names_spec(courses_view(rows@)).take(i + 1) =~= names_spec(courses_view(rows@)).take(i as int).push(name_spec(rows@[i as int].raw@)));
        i += 1;
    }
    assert(names_spec(courses_view(rows@)).take(rows.len() as int) =~= names_spec(courses_view(rows@)));
    out
}

fn copy_strings(v: &Vec<String>) -> (r: Vec<String>)
    ensures
        strings_view(r@) == strings_view(v@),
{
    let mut out: Vec<String> = Vec::new();
    let mut i: usize = 0;
    while i < v.len()
        invariant
            i <= v.len(),
            strings_view(out@) == strings_view(v@).take(i as int),
        decreases v.len() - i,
    {
        let ghost before = out@;
        out.push(v[i].clone());
        assert(strings_view(out@) =~= strings_view(before).push(v@[i as int]@));
        assert(strings_view(v@).take(i + 1) =~= strings_view(v@).take(i as int).push(v@[i as int]@));
        i += 1;
    }
    assert(strings_view(v@).take(v.len() as int) =~= strings_view(v@));
    out
}

fn round_label(prefix: &str, round: usize, total: usize) -> (r: String)
    ensures
        r@ == prefix@ + int_decimal(round as int) + "/"@ + int_decimal(total as int),
{
    let mut s = owned(prefix);
    let a = decimal_of_u128(round as u128);
    append_str(&mut s, a.as_str());
    append_str(&mut s, "/");
    let b = decimal_of_u128(total as u128);
    append_str(&mut s, b.as_str());
    s
}

impl RobTask {
    /// A task over `courses` (ignored in the any-course mode, which reads
    /// the list each round) with `max(click_times, 1)` rounds.
    pub fn new(courses: Vec<Course>, select_any_available: bool, click_times: usize, click_interval_ms: u64) -> (r: RobTask)
        ensures
            r@.pending == courses_view(courses@),
            r@.next.len() == 0,
            r@.any == select_any_available,
            r@.click_times == (if click_times > 1 { click_times as nat } else { 1 }),
            r@.interval == click_interval_ms,
            r@.round == 1,
            r@.index == 0,
            r@.successful.len() == 0,
            r@.successful_ids.len() == 0,
            r@.failure is None,
            !r@.stopped,
            r@.phase == RobPhase::RoundStart,
            rob_wf(r@),
    {
        RobTask {
            select_any_available,
            click_times: if click_times > 1 { click_times } else { 1 },
            click_interval_ms,
            round: 1,
            pending: courses,
            next: Vec::new(),
            index: 0,
            successful: Vec::new(),
            successful_ids: Vec::new(),
            failure: None,
            stopped: false,
            phase: RobPhase::RoundStart,
        }
    }

    /// Whether `answer` is what the task waits for.
    pub open spec fn accepts_spec(&self, answer: &RobAnswer) -> bool {
        match self.phase {
            RobPhase::RoundStart | RobPhase::PausedRound | RobPhase::PausedCourse => answer is Resumed,
            RobPhase::AwaitList => answer is Listed,
            RobPhase::AwaitSubmit => answer is Submitted,
            RobPhase::Done => false,
        }
    }

    /// Whether `answer` is what the task waits for.
    pub fn accepts(&self, answer: &RobAnswer) -> (r: bool)
        ensures
            r == self.accepts_spec(answer),
    {
        match self.phase {
            RobPhase::RoundStart | RobPhase::PausedRound | RobPhase::PausedCourse => matches!(answer, RobAnswer::Resumed),
            RobPhase::AwaitList => matches!(answer, RobAnswer::Listed(_)),
            RobPhase::AwaitSubmit => matches!(answer, RobAnswer::Submitted(_)),
            RobPhase::Done => false,
        }
    }

    fn finish(&mut self) -> (r: RobAction)
        ensures
            final(self)@ == (RobView { phase: RobPhase::Done, ..old(self)@ }),
            action_fits(final(self)@, r),
    {
        self.phase = RobPhase::Done;
        let names = names_of(&self.pending);
        let successful = copy_strings(&self.successful);
        let failure = match &self.failure {
            Some(f) => Some(f.clone()),
            None => None,
        };
        RobAction::Finished { successful, pending: names, failure }
    }

    fn submit_current(&mut self) -> (r: RobAction)
        requires
            old(self).index < old(self).pending.len(),
        ensures
            final(self)@ == (RobView { phase: RobPhase::AwaitSubmit, ..old(self)@ }),
            action_fits(final(self)@, r),
    {
        self.phase = RobPhase::AwaitSubmit;
        let c = dup_course(&self.pending[self.index]);
        RobAction::Submit(c)
    }

    fn open(&mut self) -> (r: RobAction)
        ensures
            final(self)@ == open_round(old(self)@),
            action_fits(final(self)@, r),
    {
        if self.stopped || (!self.select_any_available && self.pending.len() == 0) {
            self.finish()
        } else if self.select_any_available {
            self.phase = RobPhase::AwaitList;
            RobAction::FetchAvailable
        } else {
            self.index = 0;
            self.submit_current()
        }
    }

    fn close(&mut self) -> (r: RobAction)
        requires
            old(self).round <= old(self).click_times,
        ensures
            final(self)@ == close_round(old(self)@),
            action_fits(final(self)@, r),
    {
        let mut kept: Vec<Course> = Vec::new();
        std::mem::swap(&mut kept, &mut self.next);
        self.pending = kept;
        self.index = 0;
        assert(courses_view(self.next@) =~= Seq::<JsonView>::empty());
        if self.round >= self.click_times {
            self.finish()
        } else {
            self.round = self.round + 1;
            self.open()
        }
    }

    fn advance(&mut self) -> (r: RobAction)
        requires
            old(self).index <= old(self).pending.len(),
            old(self).round <= old(self).click_times,
        ensures
            final(self)@ == advance(old(self)@),
            action_fits(final(self)@, r),
    {
        let ghost target = advance(self@);
        while self.index < self.pending.len()
            invariant
                self.index <= self.pending.len(),
                self.round <= self.click_times,
                advance(self@) == target,
                target == advance(old(self)@),
            decreases self.pending.len() - self.index,
        {
            let skip = self.stopped || (self.select_any_available && !self.pending[self.index].has_available_seat());
            assert(self@.pending[self.index as int] == self.pending@[self.index as int].raw@);
            if !skip {
                assert(!passed_over(self@));
                assert(advance(self@) == (RobView { phase: RobPhase::AwaitSubmit, ..self@ }));
                return self.submit_current();
            }
            let c = dup_course(&self.pending[self.index]);
            let ghost before = self@;
            self.next.push(c);
            self.index = self.index + 1;
            assert(self@ == RobView { next: before.next.push(before.pending[before.index as int]), index: before.index + 1, ..before }) by {
                assert(courses_view(self.next@) =~= before.next.push(before.pending[before.index as int]));
            }
        }
        self.close()
    }

    /// The next step after `answer`, with `stop_requested` telling whether
    /// the user asked the task to stop.
    ///
    /// Once the task is stopping it submits nothing and asks for no list; a
    /// submission without a certain answer stops it. In the any-course mode
    /// only candidates are submitted, and the first success ends the task.
    pub fn step(&mut self, stop_requested: bool, answer: RobAnswer) -> (r: RobStep)
        requires
            old(self).accepts_spec(&answer),
            rob_wf(old(self)@),
        ensures
            rob_wf(final(self)@),
            action_fits(final(self)@, r.action),
            final(self)@.any == old(self)@.any,
            final(self)@.click_times == old(self)@.click_times,
            final(self)@.interval == old(self)@.interval,
            old(self)@.round <= final(self)@.round <= old(self)@.round + 1,
            old(self)@.stopped || stop_requested ==> final(self)@.stopped,
            final(self)@.stopped ==> !(r.action is Submit) && !(r.action is FetchAvailable),
            old(self)@.successful.is_prefix_of(final(self)@.successful),
            r.action is FetchAvailable ==> final(self)@.round == old(self)@.round + 1 || old(self)@.phase == RobPhase::RoundStart,
            r.action matches RobAction::Submit(c) ==> (final(self)@.any ==> candidate_spec(c.raw@, final(self)@.successful_ids)),
            ({
                let v = RobView { stopped: old(self)@.stopped || stop_requested, ..old(self)@ };
                match answer {
                    RobAnswer::Resumed => r.status is None && r.alert is None && (
                        if old(self)@.phase == RobPhase::RoundStart {
                            final(self)@ == open_round(v)
                        } else if old(self)@.phase == RobPhase::PausedRound {
                            final(self)@ == close_round(RobView { next: v.pending, ..v })
                        } else {
                            final(self)@ == advance(RobView { index: v.index + 1, ..v })
                        }),
                    RobAnswer::Listed(Ok(courses)) => {
                        let ready = candidates_spec(courses_view(courses@), v.successful_ids);
                        &&& r.alert is None
                        &&& r.status matches Some(s) && s@ == list_status(v.round, v.click_times, ready.len())
                        &&& if ready.len() == 0 {
                            final(self)@ == RobView { pending: Seq::empty(), phase: RobPhase::PausedRound, ..v }
                                && r.action == RobAction::Wait(list_pause(v.interval))
                        } else {
                            final(self)@ == advance(RobView { pending: ready, next: Seq::empty(), index: 0, ..v })
                        }
                    },
                    RobAnswer::Listed(Err(e)) => if e.kind == FailureKind::SessionExpired {
                        &&& r.status is None && r.alert is None
                        &&& final(self)@ == RobView {
                            failure: Some(expired_text(join_seq(e@.messages, ": "@))), stopped: true, phase: RobPhase::Done, ..v }
                    } else if e.kind == FailureKind::VpnRequired {
                        &&& r.status is None && r.alert == Some(e)
                        &&& final(self)@ == RobView { stopped: true, phase: RobPhase::PausedRound, ..v }
                        &&& r.action == RobAction::Wait(list_pause(v.interval))
                    } else {
                        &&& r.alert is None
                        &&& r.status matches Some(s) && s@ == refresh_failed_status(v.round, v.click_times, join_seq(e@.messages, ": "@))
                        &&& final(self)@ == RobView { phase: RobPhase::PausedRound, ..v }
                        &&& r.action == RobAction::Wait(list_pause(v.interval))
                    },
                    RobAnswer::Submitted(Ok(body)) => {
                        let c = v.pending[v.index as int];
                        &&& r.alert is None
                        &&& r.status matches Some(s) && s@ == submit_status(v.round, v.click_times, name_spec(c), body@)
                        &&& if selection_succeeded_spec(body@) {
                            let w = RobView {
                                successful: v.successful.push(name_spec(c)),
                                successful_ids: v.successful_ids.push(course_id_spec(c)),
                                ..v
                            };
                            if v.any {
                                final(self)@ == RobView { pending: v.next, next: Seq::empty(), phase: RobPhase::Done, ..w }
                            } else {
                                final(self)@ == RobView { phase: RobPhase::PausedCourse, ..w }
                                    && r.action == RobAction::Wait(v.interval)
                            }
                        } else {
                            final(self)@ == RobView { next: v.next.push(c), phase: RobPhase::PausedCourse, ..v }
                                && r.action == RobAction::Wait(v.interval)
                        }
                    },
                    RobAnswer::Submitted(Err(e)) => {
                        let c = v.pending[v.index as int];
                        &&& r.status is None
                        &&& (if e.kind == FailureKind::VpnRequired { r.alert == Some(e) } else { r.alert is None })
                        &&& final(self)@ == RobView {
                            next: v.next.push(c),
                            failure: Some(submission_error_text(name_spec(c), join_seq(e@.messages, ": "@))),
                            stopped: true,
                            phase: RobPhase::PausedCourse,
                            ..v
                        }
                        &&& r.action == RobAction::Wait(v.interval)
                    },
                }
            }),
    {
        self.stopped = self.stopped || stop_requested;
        let ghost v = self@;
        match answer {
            RobAnswer::Resumed => {
                let action = if self.phase == RobPhase::RoundStart {
                    proof { lemma_open_round(v); }
                    self.open()
                } else if self.phase == RobPhase::PausedRound {
                    let mut kept: Vec<Course> = Vec::new();
                    std::mem::swap(&mut kept, &mut self.pending);
                    self.next = kept;
                    assert(self@ == RobView { next: v.pending, pending: Seq::empty(), ..v }) by {
                        assert(courses_view(self.pending@) =~= Seq::<JsonView>::empty());
                    }
                    assert(close_round(self@) == close_round(RobView { next: v.pending, ..v }));
                    proof {
                        let w = RobView { pending: v.pending, next: Seq::empty(), index: 0, ..v };
                        if w.round < w.click_times { lemma_open_round(RobView { round: w.round + 1, ..w }); }
                    }
                    self.close()
                } else {
                    let count = self.pending.len();
                    assert(self.index < count);
                    self.index = self.index + 1;
                    proof { lemma_advance(self@); }
                    self.advance()
                };
                RobStep { status: None, alert: None, action }
            },
            RobAnswer::Listed(Ok(courses)) => {
                let ready = available_candidates(courses, &self.successful_ids);
                let mut status = round_label("任意未满课程查询 ", self.round, self.click_times);
                append_str(&mut status, "：发现 ");
                let n = decimal_of_u128(ready.len() as u128);
                append_str(&mut status, n.as_str());
                append_str(&mut status, " 门可选课程");
                proof { lemma_candidates(courses_view(courses@), v.successful_ids); }
                if ready.len() == 0 {
                    self.pending = ready;
                    self.phase = RobPhase::PausedRound;
                    let pause = if self.click_interval_ms > 500 { self.click_interval_ms } else { 500 };
                    return RobStep { status: Some(status), alert: None, action: RobAction::Wait(pause) };
                }
                self.pending = ready;
                self.next = Vec::new();
                self.index = 0;
                assert(courses_view(self.next@) =~= Seq::<JsonView>::empty());
                proof { lemma_advance(self@); }
                let action = self.advance();
                RobStep { status: Some(status), alert: None, action }
            },
            RobAnswer::Listed(Err(e)) => {
                if e.is_session_expired() {
                    let mut text = owned("登录会话已失效，且未能自动恢复：");
                    let report = e.report();
                    append_str(&mut text, report.as_str());
                    append_str(&mut text, "\n任务已停止，请重新登录后再试。");
                    self.failure = Some(text);
                    self.stopped = true;
                    let action = self.finish();
                    return RobStep { status: None, alert: None, action };
                }
                let pause = if self.click_interval_ms > 500 { self.click_interval_ms } else { 500 };
                self.phase = RobPhase::PausedRound;
                if e.is_vpn_required() {
                    self.stopped = true;
                    RobStep { status: None, alert: Some(e), action: RobAction::Wait(pause) }
                } else {
                    let mut status = round_label("余量监控 ", self.round, self.click_times);
                    append_str(&mut status, " 刷新失败：");
                    let report = e.report();
                    append_str(&mut status, report.as_str());
                    RobStep { status: Some(status), alert: None, action: RobAction::Wait(pause) }
                }
            },
            RobAnswer::Submitted(Ok(body)) => {
                let name = self.pending[self.index].name();
                let mut status = round_label("轮次 ", self.round, self.click_times);
                append_str(&mut status, " | ");
                append_str(&mut status, name.as_str());
                append_str(&mut status, ": code=");
                let code_text = decimal_of_i64(crate::api::code(&body));
                append_str(&mut status, code_text.as_str());
                append_str(&mut status, ", ");
                let msg = match body.get("msg") {
                    Some(m) => match m.as_str() {
                        Some(t) => t.clone(),
                        None => String::new(),
                    },
                    None => String::new(),
                };
                append_str(&mut status, msg.as_str());
                if selection_succeeded(&body) {
                    let id = self.pending[self.index].id();
                    self.successful_ids.push(id);
                    self.successful.push(name);
                    proof {
                        assert(strings_view(self.successful@) =~= v.successful.push(name_spec(v.pending[v.index as int])));
                        assert(strings_view(self.successful_ids@) =~= v.successful_ids.push(course_id_spec(v.pending[v.index as int])));
                    }
                    if self.select_any_available {
                        let mut kept: Vec<Course> = Vec::new();
                        std::mem::swap(&mut kept, &mut self.next);
                        self.pending = kept;
                        assert(courses_view(self.next@) =~= Seq::<JsonView>::empty());
                        let action = self.finish();
                        return RobStep { status: Some(status), alert: None, action };
                    }
                } else {
                    let c = dup_course(&self.pending[self.index]);
                    self.next.push(c);
                    assert(courses_view(self.next@) =~= v.next.push(v.pending[v.index as int]));
                }
                self.phase = RobPhase::PausedCourse;
                RobStep { status: Some(status), alert: None, action: RobAction::Wait(self.click_interval_ms) }
            },
            RobAnswer::Submitted(Err(e)) => {
                let name = self.pending[self.index].name();
                let text = stop_after_submission_error(name.as_str(), &e, &mut self.stopped);
                self.failure = Some(text);
                let c = dup_course(&self.pending[self.index]);
                self.next.push(c);
                assert(courses_view(self.next@) =~= v.next.push(v.pending[v.index as int]));
                self.phase = RobPhase::PausedCourse;
                let alert = if e.is_vpn_required() { Some(e) } else { None };
                RobStep { status: None, alert, action: RobAction::Wait(self.click_interval_ms) }
            },
        }
    }
}


// ---------------------------------------------------------------------------
// Keeping the login alive during a task
// ---------------------------------------------------------------------------

/// What one keep-alive call leads to.
#[derive(Debug)]
pub enum KeepAlive {
    /// Show this status and keep going.
    Report(String),
    /// The VPN gateway answered: stop the task and report the failure.
    Stop(Failure),
}

/// The outcome of a keep-alive call: `保活成功`, a VPN demand that stops
/// the task, or `保活失败：` and the failure, after which keep-alive goes on.
pub fn keepalive_report(result: Result<(), Failure>) -> (r: KeepAlive)
    ensures
        match result {
            Ok(()) => r matches KeepAlive::Report(s) && s@ == "保活成功"@,
            Err(e) => if e.kind == FailureKind::VpnRequired {
                r == KeepAlive::Stop(e)
            } else {
                r matches KeepAlive::Report(s) && s@ == "保活失败："@ + join_seq(e@.messages, ": "@)
            },
        },
{
    match result {
        Ok(()) => KeepAlive::Report(owned("保活成功")),
        Err(e) => {
            if e.is_vpn_required() {
                KeepAlive::Stop(e)
            } else {
                let mut s = owned("保活失败：");
                let report = e.report();
                append_str(&mut s, report.as_str());
                KeepAlive::Report(s)
            }
        },
    }
}

} // verus!
