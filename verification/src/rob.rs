//! The selection task: when an answer counts as a success, which courses the
//! window shows and which the task tries, and the rounds of submissions.
use vstd::prelude::*;
use crate::failure::{Failure, FailureKind, FailureView};
use crate::json::{entries_get, lemma_entries_insert_get, set_spec, str_in, JsonValue, JsonView};
use crate::model::{
    enrolled_spec, has_available_seat_spec, has_conflict_spec, searchable_text_spec, seat_availability_spec,
    selectable_spec, Course, Prefs, first_text, id_keys,
};
use crate::text::{append_str, contains_seq, join_seq, join_strings, lowercase, owned, str_contains, str_eq, to_lowercase, trim_seq, trim_str};

verus! {

// ---------------------------------------------------------------------------
// Answers to a submission
// ---------------------------------------------------------------------------

/// Whether the `data` member of an answer reports success: `true`, the
/// integer 1, the text `1`, `true` or `success` (trimmed), or an object whose
/// `success` member is `true`.
pub open spec fn data_succeeded(data: Option<JsonView>) -> bool {
    match data {
        Some(JsonView::Bool(b)) => b,
        Some(JsonView::Number(_, i, _)) => i == Some(1i64),
        Some(JsonView::Str(s)) => trim_seq(s) == "1"@ || trim_seq(s) == "true"@ || trim_seq(s) == "success"@,
        Some(JsonView::Object(e)) => entries_get(e, "success"@) == Some(JsonView::Bool(true)),
        _ => false,
    }
}

/// Whether the `msg` member is a text that speaks of success and not of
/// failure.
pub open spec fn message_succeeded(body: JsonView) -> bool {
    match str_in(body.get("msg"@)) {
        Some(m) => contains_seq(m, "成功"@) && !contains_seq(m, "失败"@),
        None => false,
    }
}

/// Whether an answer to a submission reports success. The HTTP-like `code`
/// plays no part.
pub open spec fn selection_succeeded_spec(body: JsonView) -> bool {
    data_succeeded(body.get("data"@)) || message_succeeded(body)
}

fn data_flag(data: Option<&JsonValue>) -> (r: bool)
    ensures
        r == data_succeeded(match data { Some(d) => Some(d@), None => None }),
{
    match data {
        Some(JsonValue::Bool(b)) => *b,
        Some(JsonValue::Number(n)) => n.int == Some(1i64),
        Some(JsonValue::String(s)) => {
            let t = trim_str(s.as_str());
            str_eq(t.as_str(), "1") || str_eq(t.as_str(), "true") || str_eq(t.as_str(), "success")
        },
        Some(JsonValue::Object(_)) => {
            let d = data.unwrap();
            match d.get("success") {
                Some(JsonValue::Bool(b)) => *b,
                _ => false,
            }
        },
        _ => false,
    }
}

/// Whether the elective system accepted a submission.
pub fn selection_succeeded(body: &JsonValue) -> (r: bool)
    ensures
        r == selection_succeeded_spec(body@),
{
    if data_flag(body.get("data")) {
        return true;
    }
    match body.get("msg") {
        Some(m) => match m.as_str() {
            Some(text) => str_contains(text.as_str(), "成功") && !str_contains(text.as_str(), "失败"),
            None => false,
        },
        None => false,
    }
}

// ---------------------------------------------------------------------------
// Which courses are shown and tried
// ---------------------------------------------------------------------------

/// Whether a course passes the filters of the window: selectable (or already
/// chosen) where only selectable courses are shown, with a free seat (or
/// already chosen) where only available ones are, and containing `needle`
/// where it is not empty.
pub open spec fn course_visible_spec(raw: JsonView, only_selectable: bool, only_available: bool, needle: Seq<char>) -> bool {
    &&& (!only_selectable || selectable_spec(raw) || enrolled_spec(raw))
    &&& (!only_available || has_available_seat_spec(raw) || enrolled_spec(raw))
    &&& (needle.len() == 0 || contains_seq(searchable_text_spec(raw), needle))
}

/// Whether the window lists `course` under `prefs` and the search text
/// `needle` (already trimmed and lower-cased).
pub fn course_visible(course: &Course, prefs: &Prefs, needle: &str) -> (r: bool)
    ensures
        r == course_visible_spec(course.raw@, prefs.only_selectable, prefs.only_available, needle@),
{
    let selectable = !prefs.only_selectable || course.selectable() || course.enrolled();
    let available = !prefs.only_available || course.has_available_seat() || course.enrolled();
    let searchable = if needle.is_empty() {
        true
    } else {
        let text = course.searchable_text();
        str_contains(text.as_str(), needle)
    };
    selectable && available && searchable
}

/// The ids of `courses`.
pub open spec fn course_id_spec(raw: JsonView) -> Seq<char> {
    first_text(raw, id_keys())
}

/// Whether a course may be tried in the any-course mode: selectable, with a
/// free seat, and its id not in `taken` (the ids selected successfully so
/// far).
pub open spec fn candidate_spec(raw: JsonView, taken: Seq<Seq<char>>) -> bool {
    selectable_spec(raw) && has_available_seat_spec(raw) && !taken.contains(course_id_spec(raw))
}

/// The candidates among `rows`, in their order.
pub open spec fn candidates_spec(rows: Seq<JsonView>, taken: Seq<Seq<char>>) -> Seq<JsonView>
    decreases rows.len(),
{
    if rows.len() == 0 {
        Seq::empty()
    } else {
        let rest = candidates_spec(rows.drop_last(), taken);
        if candidate_spec(rows.last(), taken) { rest.push(rows.last()) } else { rest }
    }
}

pub open spec fn courses_view(courses: Seq<Course>) -> Seq<JsonView> {
    courses.map_values(|c: Course| c.raw@)
}

pub open spec fn strings_view(v: Seq<String>) -> Seq<Seq<char>> {
    v.map_values(|s: String| s@)
}

fn contains_string(v: &Vec<String>, s: &String) -> (r: bool)
    ensures
        r == strings_view(v@).contains(s@),
{
    let ghost views = strings_view(v@);
    let mut i: usize = 0;
    while i < v.len()
        invariant
            i <= v.len(),
            views == strings_view(v@),
            forall|k: int| 0 <= k < i ==> views[k] != s@,
        decreases v.len() - i,
    {
        if str_eq(v[i].as_str(), s.as_str()) {
            assert(views[i as int] == s@);
            return true;
        }
        i += 1;
    }
    proof {
        if views.contains(s@) {
            let k = choose|k: int| 0 <= k < views.len() && views[k] == s@;
            assert(views[k] != s@);
        }
    }
    false
}

/// The courses that the any-course mode tries: the selectable ones with a
/// free seat whose id is not in `successful_ids`, in their order.
pub fn available_candidates(courses: Vec<Course>, successful_ids: &Vec<String>) -> (r: Vec<Course>)
    ensures
        courses_view(r@) == candidates_spec(courses_view(courses@), strings_view(successful_ids@)),
{
    let ghost rows = courses_view(courses@);
    let ghost taken = strings_view(successful_ids@);
    let mut out: Vec<Course> = Vec::new();
    let mut rest = courses;
    let mut i: usize = 0;
    let n = rest.len();
    let mut kept: Vec<Course> = Vec::new();
    std::mem::swap(&mut kept, &mut rest);
    let ghost all = kept@;
    assert(courses_view(all) == rows);
    while i < n
        invariant
            n == all.len(),
            i <= n,
            rows == courses_view(all),
            taken == strings_view(successful_ids@),
            kept@.len() == n - i,
            forall|k: int| 0 <= k < kept@.len() ==> #[trigger] kept@[k] == all[k + i],
            courses_view(out@) == candidates_spec(rows.take(i as int), taken),
        decreases n - i,
    {
        let course = kept.remove(0);
        assert(course == all[i as int]);
        proof {
            assert(rows.take(i + 1).drop_last() == rows.take(i as int));
            assert(rows.take(i + 1).last() == course.raw@);
        }
        let id = course.id();
        if course.selectable() && course.has_available_seat() && !contains_string(successful_ids, &id) {
            let ghost before = out@;
            out.push(course);
            assert(courses_view(out@) =~= courses_view(before).push(all[i as int].raw@));
        }
        i += 1;
    }
    assert(rows.take(n as int) == rows);
    out
}


/// The indices below `n` of the rows that the window lists.
pub open spec fn visible_below(rows: Seq<JsonView>, only_selectable: bool, only_available: bool, needle: Seq<char>, n: nat) -> Seq<usize>
    decreases n,
{
    if n == 0 {
        Seq::empty()
    } else {
        let rest = visible_below(rows, only_selectable, only_available, needle, (n - 1) as nat);
        if course_visible_spec(rows[n - 1], only_selectable, only_available, needle) { rest.push((n - 1) as usize) } else { rest }
    }
}

/// The search text as the filter uses it: trimmed and lower-cased.
pub open spec fn needle_spec(filter: Seq<char>) -> Seq<char> {
    lowercase(trim_seq(filter))
}

/// The indices of the courses that the window lists, in order.
pub fn visible_indices(courses: &Vec<Course>, prefs: &Prefs, filter: &str) -> (r: Vec<usize>)
    ensures
        r@ == visible_below(courses_view(courses@), prefs.only_selectable, prefs.only_available, needle_spec(filter@), courses@.len() as nat),
{
    let trimmed = trim_str(filter);
    let needle = to_lowercase(trimmed.as_str());
    let ghost rows = courses_view(courses@);
    let mut out: Vec<usize> = Vec::new();
    let mut i: usize = 0;
    while i < courses.len()
        invariant
            i <= courses.len(),
            rows == courses_view(courses@),
            needle@ == needle_spec(filter@),
            out@ == visible_below(rows, prefs.only_selectable, prefs.only_available, needle@, i as nat),
        decreases courses.len() - i,
    {
        assert(rows[i as int] == courses@[i as int].raw@);
        if course_visible(&courses[i], prefs, needle.as_str()) {
            out.push(i);
        }
        i += 1;
    }
    out
}

/// The state column of the course table.
pub open spec fn course_status_spec(raw: JsonView) -> Seq<char> {
    if enrolled_spec(raw) {
        "已选"@
    } else if selectable_spec(raw) {
        match seat_availability_spec(raw) {
            Some(true) => "未满·可选"@,
            Some(false) => "已满"@,
            None => "可选·余量未知"@,
        }
    } else if has_conflict_spec(raw) {
        "冲突"@
    } else {
        "不可选"@
    }
}

/// What the state column shows for a course.
pub fn course_status(course: &Course) -> (r: &'static str)
    ensures
        r@ == course_status_spec(course.raw@),
{
    if course.enrolled() {
        "已选"
    } else if course.selectable() {
        match course.seat_availability() {
            Some(true) => "未满·可选",
            Some(false) => "已满",
            None => "可选·余量未知",
        }
    } else if course.has_conflict() {
        "冲突"
    } else {
        "不可选"
    }
}

/// The rows at `indices`, in their order; an index past the end is
/// passed over.
pub open spec fn picked(rows: Seq<JsonView>, indices: Seq<usize>) -> Seq<JsonView>
    decreases indices.len(),
{
    if indices.len() == 0 {
        Seq::empty()
    } else {
        let rest = picked(rows, indices.drop_last());
        let k = indices.last();
        if k < rows.len() { rest.push(rows[k as int]) } else { rest }
    }
}

/// The ticked courses, by their indices in the table.
pub fn pick_courses(courses: &Vec<Course>, indices: &Vec<usize>) -> (r: Vec<Course>)
    ensures
        courses_view(r@) == picked(courses_view(courses@), indices@),
{
    let ghost rows = courses_view(courses@);
    let mut out: Vec<Course> = Vec::new();
    let mut i: usize = 0;
    while i < indices.len()
        invariant
            i <= indices.len(),
            rows == courses_view(courses@),
            courses_view(out@) == picked(rows, indices@.take(i as int)),
        decreases indices.len() - i,
    {
        let k = indices[i];
        assert(indices@.take(i + 1).drop_last() == indices@.take(i as int));
        assert(indices@.take(i + 1).last() == k);
        if k < courses.len() {
            let ghost before = out@;
            out.push(Course { raw: courses[k].raw.duplicate() });
            assert(courses_view(out@) =~= courses_view(before).push(rows[k as int]));
        }
        i += 1;
    }
    assert(indices@.take(indices.len() as int) == indices@);
    out
}

/// A row of the list of chosen courses, marked as chosen.
pub open spec fn mark_enrolled(raw: JsonView) -> JsonView {
    set_spec(raw, "_enrolled"@, JsonView::Bool(true))
}

pub open spec fn ids_view(rows: Seq<JsonView>) -> Seq<Seq<char>> {
    rows.map_values(|r: JsonView| course_id_spec(r))
}

/// The chosen courses to add to the list: marked, and only those whose id
/// the list does not have yet.
pub open spec fn extra_enrolled(enrolled: Seq<JsonView>, ids: Seq<Seq<char>>) -> Seq<JsonView>
    decreases enrolled.len(),
{
    if enrolled.len() == 0 {
        Seq::empty()
    } else {
        let rest = extra_enrolled(enrolled.drop_last(), ids);
        let m = mark_enrolled(enrolled.last());
        if ids.contains(course_id_spec(m)) { rest } else { rest.push(m) }
    }
}

/// Whether a row can be marked (indexing anything but an object or `null`
/// panics).
pub open spec fn markable(raw: JsonView) -> bool {
    raw is Object || raw is Null
}

/// The course list of a batch with the already chosen courses added: a
/// VPN demand on the second list is passed on, any other failure of it
/// leaves the list as it is.
pub fn merge_enrolled(courses: Vec<Course>, enrolled: Result<Vec<Course>, Failure>) -> (r: Result<Vec<Course>, Failure>)
    requires
        enrolled matches Ok(list) ==> forall|k: int| 0 <= k < list@.len() ==> #[trigger] markable(list@[k].raw@),
    ensures
        match enrolled {
            Err(e) => if e.kind == FailureKind::VpnRequired {
                r == Err::<Vec<Course>, Failure>(e)
            } else {
                r matches Ok(list) && courses_view(list@) == courses_view(courses@)
            },
            Ok(list) => r matches Ok(merged) && courses_view(merged@)
                == courses_view(courses@) + extra_enrolled(courses_view(list@), ids_view(courses_view(courses@))),
        },
{
    let list = match enrolled {
        Err(e) => {
            if e.is_vpn_required() {
                return Err(e);
            }
            return Ok(courses);
        },
        Ok(list) => list,
    };
    let ghost base = courses_view(courses@);
    let ghost chosen = courses_view(list@);
    let mut ids: Vec<String> = Vec::new();
    let mut i: usize = 0;
    while i < courses.len()
        invariant
            i <= courses.len(),
            base == courses_view(courses@),
            strings_view(ids@) == ids_view(base).take(i as int),
        decreases courses.len() - i,
    {
        let ghost before = ids@;
        ids.push(courses[i].id());
        assert(strings_view(ids@) =~= strings_view(before).push(course_id_spec(base[i as int])));
        assert(ids_view(base).take(i + 1) =~= ids_view(base).take(i as int).push(course_id_spec(base[i as int])));
        i += 1;
    }
    assert(ids_view(base).take(courses.len() as int) =~= ids_view(base));
    let mut out = courses;
    let mut j: usize = 0;
    while j < list.len()
        invariant
            j <= list.len(),
            chosen == courses_view(list@),
            forall|k: int| 0 <= k < list@.len() ==> #[trigger] markable(list@[k].raw@),
            strings_view(ids@) == ids_view(base),
            courses_view(out@) == base + extra_enrolled(chosen.take(j as int), ids_view(base)),
        decreases list.len() - j,
    {
        let mut raw = list[j].raw.duplicate();
        assert(markable(list@[j as int].raw@));
        raw.set("_enrolled", JsonValue::Bool(true));
        let marked = Course { raw };
        let id = marked.id();
        proof {
            assert(chosen.take(j + 1).drop_last() == chosen.take(j as int));
            assert(chosen.take(j + 1).last() == chosen[j as int]);
        }
        if !contains_string(&ids, &id) {
            let ghost before = out@;
            out.push(marked);
            assert(courses_view(out@) =~= courses_view(before).push(mark_enrolled(chosen[j as int])));
        }
        j += 1;
    }
    assert(chosen.take(list.len() as int) == chosen);
    Ok(out)
}

// ---------------------------------------------------------------------------
// Messages of the task
// ---------------------------------------------------------------------------

/// The message left where a submission had no certain answer.
pub open spec fn submission_error_text(name: Seq<char>, report: Seq<char>) -> Seq<char> {
    name + "："@ + report + "\n任务已停止，未继续重试。请先核对官方已选课程，确认本次提交结果。"@
}

/// Stops the task after a submission whose outcome is unknown, and returns
/// the message that says so.
pub fn stop_after_submission_error(name: &str, error: &Failure, stopped: &mut bool) -> (r: String)
    ensures
        *final(stopped),
        r@ == submission_error_text(name@, join_seq(error@.messages, ": "@)),
{
    *stopped = true;
    let mut text = owned(name);
    append_str(&mut text, "：");
    let report = error.report();
    append_str(&mut text, report.as_str());
    append_str(&mut text, "\n任务已停止，未继续重试。请先核对官方已选课程，确认本次提交结果。");
    text
}

/// Course names for a message: `无` where there are none, else joined
/// by `、`.
pub open spec fn display_names_spec(names: Seq<Seq<char>>) -> Seq<char> {
    if names.len() == 0 { "无"@ } else { join_seq(names, "、"@) }
}

/// Course names as the result window lists them.
pub fn display_names(names: &[String]) -> (r: String)
    ensures
        r@ == display_names_spec(strings_view(names@)),
{
    if names.len() == 0 {
        owned("无")
    } else {
        join_strings(names, "、")
    }
}

// ---------------------------------------------------------------------------
// What a worker reports to the window
// ---------------------------------------------------------------------------

/// A report from a background task that carries plain values.
#[derive(Debug)]
pub enum WorkerEvent {
    Status(String),
    NetworkReady,
    VpnAuthorized,
    VpnRequired { task_finished: bool, detail: Option<String> },
    RobFinished { successful: Vec<String>, pending: Vec<String>, failure: Option<String> },
    Error(String),
}

/// The report for a failure: a VPN demand keeps the outermost description
/// as its detail where the demand was wrapped in one; anything else shows
/// the whole chain.
pub open spec fn from_error_spec(e: FailureView, r: WorkerEvent) -> bool {
    if e.kind == FailureKind::VpnRequired {
        r matches WorkerEvent::VpnRequired { task_finished, detail }
            && !task_finished
            && (match detail {
                Some(d) => e.messages.len() > 1 && d@ == e.messages[0],
                None => e.messages.len() <= 1,
            })
    } else {
        r matches WorkerEvent::Error(text) && text@ == join_seq(e.messages, ": "@)
    }
}

impl WorkerEvent {
    /// The report of a failed background step.
    pub fn from_error(error: &Failure) -> (r: WorkerEvent)
        ensures
            from_error_spec(error@, r),
    {
        if error.is_vpn_required() {
            let detail = if error.has_context() { Some(error.message()) } else { None };
            WorkerEvent::VpnRequired { task_finished: false, detail }
        } else {
            WorkerEvent::Error(error.report())
        }
    }
}


// ---------------------------------------------------------------------------
// Laws
// ---------------------------------------------------------------------------

/// The HTTP-like `code` of an answer never decides whether a selection
/// succeeded: setting it to anything leaves the verdict as it was.
pub proof fn lemma_code_plays_no_part(body: JsonView, code: JsonView)
    requires
        body is Object,
    ensures
        selection_succeeded_spec(set_spec(body, "code"@, code)) == selection_succeeded_spec(body),
{
    let e = body->Object_0;
    lemma_entries_insert_get(e, "code"@, code, "data"@);
    lemma_entries_insert_get(e, "code"@, code, "msg"@);
    assert("data"@ != "code"@) by {
        reveal_strlit("data");
        reveal_strlit("code");
        assert("data"@[0] != "code"@[0]);
    }
    assert("msg"@ != "code"@) by {
        reveal_strlit("msg");
        reveal_strlit("code");
        assert("msg"@.len() != "code"@.len());
    }
}

/// An answer whose `msg` is a text containing `成功` but not `失败`
/// reports success whatever its `data` member holds (even `null` or
/// `false`); so does one whose `data` is `true`, whatever its message; an
/// answer with neither `data` nor `msg` never does.
pub proof fn lemma_success_message_decides(body: JsonView)
    ensures
        (body.get("msg"@) matches Some(JsonView::Str(m)) && contains_seq(m, "成功"@) && !contains_seq(m, "失败"@))
            ==> selection_succeeded_spec(body),
        body.get("data"@) == Some(JsonView::Bool(true)) ==> selection_succeeded_spec(body),
        body.get("data"@) is None && body.get("msg"@) is None ==> !selection_succeeded_spec(body),
{
}

/// A failure wrapped in an outer description.
pub open spec fn with_context(e: FailureView, message: Seq<char>) -> FailureView {
    FailureView { kind: e.kind, messages: seq![message] + e.messages }
}

/// A VPN demand stays a VPN demand under any description wrapped around
/// it, and its report carries that description as its detail.
pub proof fn lemma_vpn_survives_context(e: FailureView, message: Seq<char>, r: WorkerEvent)
    requires
        e.kind == FailureKind::VpnRequired,
        e.messages.len() > 0,
        from_error_spec(with_context(e, message), r),
    ensures
        r matches WorkerEvent::VpnRequired { task_finished, detail } && !task_finished
            && (detail matches Some(d) && d@ == message),
{
    assert(with_context(e, message).messages[0] == message);
}

} // verus!
