//! Preferences, elective batches and courses, with the rules that read a
//! course row of the elective system.
use vstd::prelude::*;
use crate::json::{entries_keys_unique, lemma_entries_merge_get, lemma_entries_remove_get, lemma_reverse_get_unique, duplicate_entries, entries_get, entries_merge, entries_remove, entries_view, entries_without, insert_entry, json_view, items_view, lemma_entries_view, lemma_items_view, str_in, JsonValue, JsonView};
use crate::text::{append_str, contains_seq, dedup_seq, dedup_strings, join_seq, join_strings, lowercase, owned, parse_i64_seq, parse_trimmed_i64, str_contains, str_eq, to_lowercase, trim_seq, chars_of, parse_i64_chars, trim_chars, opt_view};

verus! {

// ---------------------------------------------------------------------------
// Preferences
// ---------------------------------------------------------------------------

/// What the user sets in the window, kept between runs.
#[derive(Clone, Debug)]
pub struct Prefs {
    pub username: String,
    pub password: String,
    pub only_selectable: bool,
    pub only_available: bool,
    pub page_interval_ms: u64,
    pub list_403_retry: usize,
    pub penalty_ms: u64,
    pub click_interval_ms: u64,
    pub click_times: usize,
    pub keep_alive: bool,
    pub keep_alive_seconds: u64,
    pub scheduled_start: String,
    pub select_any_available: bool,
    pub auto_relogin: bool,
}

impl Prefs {
    /// The preferences of a first run.
    pub fn with_defaults() -> (r: Prefs)
        ensures
            r.username@ == Seq::<char>::empty(),
            r.password@ == Seq::<char>::empty(),
            r.only_selectable,
            !r.only_available,
            r.page_interval_ms == 1_800,
            r.list_403_retry == 10,
            r.penalty_ms == 1_500,
            r.click_interval_ms == 250,
            r.click_times == 50,
            r.keep_alive,
            r.keep_alive_seconds == 25,
            r.scheduled_start@ == Seq::<char>::empty(),
            !r.select_any_available,
            !r.auto_relogin,
    {
        Prefs {
            username: String::new(),
            password: String::new(),
            only_selectable: true,
            only_available: false,
            page_interval_ms: 1_800,
            list_403_retry: 10,
            penalty_ms: 1_500,
            click_interval_ms: 250,
            click_times: 50,
            keep_alive: true,
            keep_alive_seconds: 25,
            scheduled_start: String::new(),
            select_any_available: false,
            auto_relogin: false,
        }
    }
}

// ---------------------------------------------------------------------------
// Batches
// ---------------------------------------------------------------------------

/// One elective round that the login answer lists.
#[derive(Clone, Debug)]
pub struct Batch {
    pub code: String,
    pub name: String,
    pub school_term_name: String,
    pub begin_time: String,
    pub end_time: String,
    pub can_select: String,
    pub no_select_reason: Option<String>,
    pub group: String,
}

/// The model of a batch.
pub struct BatchView {
    pub code: Seq<char>,
    pub name: Seq<char>,
    pub school_term_name: Seq<char>,
    pub begin_time: Seq<char>,
    pub end_time: Seq<char>,
    pub can_select: Seq<char>,
    pub no_select_reason: Option<Seq<char>>,
    pub group: Seq<char>,
}

impl View for Batch {
    type V = BatchView;

    open spec fn view(&self) -> BatchView {
        BatchView {
            code: self.code@,
            name: self.name@,
            school_term_name: self.school_term_name@,
            begin_time: self.begin_time@,
            end_time: self.end_time@,
            can_select: self.can_select@,
            no_select_reason: opt_view(self.no_select_reason),
            group: self.group@,
        }
    }
}

/// A text field of a batch: a JSON string, or the empty text when absent.
/// `None` where the value has another kind.
pub open spec fn text_field(v: Option<JsonView>) -> Option<Seq<char>> {
    match v {
        None => Some(Seq::empty()),
        Some(JsonView::Str(s)) => Some(s),
        Some(_) => None,
    }
}

/// The optional text field of a batch: `null` or absent gives `Some(None)`.
pub open spec fn opt_text_field(v: Option<JsonView>) -> Option<Option<Seq<char>>> {
    match v {
        None => Some(None),
        Some(JsonView::Null) => Some(None),
        Some(JsonView::Str(s)) => Some(Some(s)),
        Some(_) => None,
    }
}

/// The JSON member names of a batch's fields, in declaration order.
pub open spec fn batch_keys() -> Seq<Seq<char>> {
    seq!["code"@, "name"@, "schoolTermName"@, "beginTime"@, "endTime"@, "canSelect"@, "noSelectReason"@]
}

/// The `k`-th field's value: an object's member, an array's `k`-th element.
pub open spec fn batch_member(v: JsonView, k: int) -> Option<JsonView> {
    match v {
        JsonView::Object(entries) => entries_get(entries, batch_keys()[k]),
        JsonView::Array(items) => if k < items.len() { Some(items[k]) } else { None },
        _ => None,
    }
}

/// How `serde` reads a batch (every field defaulted, `group` left empty):
/// an object by member names, an array by position with at most seven
/// elements; any other value, or a field of another kind, is refused.
pub open spec fn batch_from_view(v: JsonView) -> Option<BatchView> {
    let shape_ok = match v {
        JsonView::Object(_) => true,
        JsonView::Array(items) => items.len() <= 7,
        _ => false,
    };
    if shape_ok
        && text_field(batch_member(v, 0)) is Some
        && text_field(batch_member(v, 1)) is Some
        && text_field(batch_member(v, 2)) is Some
        && text_field(batch_member(v, 3)) is Some
        && text_field(batch_member(v, 4)) is Some
        && text_field(batch_member(v, 5)) is Some
        && opt_text_field(batch_member(v, 6)) is Some {
        Some(BatchView {
            code: text_field(batch_member(v, 0))->0,
            name: text_field(batch_member(v, 1))->0,
            school_term_name: text_field(batch_member(v, 2))->0,
            begin_time: text_field(batch_member(v, 3))->0,
            end_time: text_field(batch_member(v, 4))->0,
            can_select: text_field(batch_member(v, 5))->0,
            no_select_reason: opt_text_field(batch_member(v, 6))->0,
            group: Seq::empty(),
        })
    } else {
        None
    }
}

fn read_text_field(v: Option<&JsonValue>) -> (r: Option<String>)
    ensures
        opt_view(r) == text_field(match v { Some(x) => Some(x@), None => None }),
{
    match v {
        None => Some(String::new()),
        Some(JsonValue::String(s)) => Some(s.clone()),
        Some(_) => None,
    }
}

fn read_opt_text_field(v: Option<&JsonValue>) -> (r: Option<Option<String>>)
    ensures
        match r {
            Some(x) => opt_text_field(match v { Some(y) => Some(y@), None => None }) == Some(opt_view(x)),
            None => opt_text_field(match v { Some(y) => Some(y@), None => None }) is None,
        },
{
    match v {
        None => Some(None),
        Some(JsonValue::Null) => Some(None),
        Some(JsonValue::String(s)) => Some(Some(s.clone())),
        Some(_) => None,
    }
}

impl Batch {
    /// The `k`-th field's JSON value.
    fn member<'a>(v: &'a JsonValue, k: usize) -> (r: Option<&'a JsonValue>)
        requires
            k < 7,
        ensures
            match r { Some(x) => Some(x@), None => None } == batch_member(v@, k as int),
    {
        match v {
            JsonValue::Object(_) => {
                let key = if k == 0 { "code" } else if k == 1 { "name" } else if k == 2 { "schoolTermName" }
                    else if k == 3 { "beginTime" } else if k == 4 { "endTime" } else if k == 5 { "canSelect" }
                    else { "noSelectReason" };
                assert(key@ == batch_keys()[k as int]);
                v.get(key)
            },
            JsonValue::Array(items) => {
                proof { lemma_items_view(items@); }
                if k < items.len() { Some(&items[k]) } else { None }
            },
            _ => None,
        }
    }

    /// A batch read from one entry of the login answer's batch lists.
    pub fn from_json(v: &JsonValue) -> (r: Option<Batch>)
        ensures
            match r {
                Some(b) => batch_from_view(v@) == Some(b@),
                None => batch_from_view(v@) is None,
            },
    {
        let shape_ok = match v {
            JsonValue::Object(_) => true,
            JsonValue::Array(items) => {
                proof { lemma_items_view(items@); }
                items.len() <= 7
            },
            _ => false,
        };
        if !shape_ok {
            return None;
        }
        let code = read_text_field(Batch::member(v, 0));
        let name = read_text_field(Batch::member(v, 1));
        let term = read_text_field(Batch::member(v, 2));
        let begin = read_text_field(Batch::member(v, 3));
        let end = read_text_field(Batch::member(v, 4));
        let can = read_text_field(Batch::member(v, 5));
        let reason = read_opt_text_field(Batch::member(v, 6));
        match (code, name, term, begin, end, can, reason) {
            (Some(code), Some(name), Some(school_term_name), Some(begin_time), Some(end_time), Some(can_select), Some(no_select_reason)) => {
                let b = Batch { code, name, school_term_name, begin_time, end_time, can_select, no_select_reason, group: String::new() };
                Some(b)
            },
            _ => None,
        }
    }
}

// ---------------------------------------------------------------------------
// Courses: specifications
// ---------------------------------------------------------------------------

/// One teaching class as the course list gives it.
#[derive(Debug)]
pub struct Course {
    pub raw: JsonValue,
}

/// `course.text(key)`: a string member as it is, a number as JSON writes it,
/// a boolean as `true` or `false`, the empty text otherwise.
pub open spec fn course_text(raw: JsonView, key: Seq<char>) -> Seq<char> {
    match raw.get(key) {
        Some(JsonView::Str(s)) => s,
        Some(JsonView::Number(t, _, _)) => t,
        Some(JsonView::Bool(b)) => if b { "true"@ } else { "false"@ },
        _ => Seq::empty(),
    }
}

/// The first non-empty text among `keys`, else the empty text.
pub open spec fn first_text(raw: JsonView, keys: Seq<Seq<char>>) -> Seq<char>
    decreases keys.len(),
{
    if keys.len() == 0 {
        Seq::empty()
    } else if course_text(raw, keys[0]).len() > 0 {
        course_text(raw, keys[0])
    } else {
        first_text(raw, keys.drop_first())
    }
}

pub open spec fn id_keys() -> Seq<Seq<char>> {
    seq!["JXBID"@, "clazzId"@, "teachingClassId"@]
}

pub open spec fn secret_keys() -> Seq<Seq<char>> {
    seq!["secretVal"@, "secret"@, "SECRETVAL"@]
}

/// The text of a member of one time slot: strings and numbers only.
pub open spec fn slot_text(item: JsonView, key: Seq<char>) -> Seq<char> {
    match item.get(key) {
        Some(JsonView::Str(s)) => s,
        Some(JsonView::Number(t, _, _)) => t,
        _ => Seq::empty(),
    }
}

/// The weekday written for the codes `1` to `7`.
pub open spec fn weekday_name(code: Seq<char>) -> Seq<char> {
    if code == "1"@ { "周一"@ }
    else if code == "2"@ { "周二"@ }
    else if code == "3"@ { "周三"@ }
    else if code == "4"@ { "周四"@ }
    else if code == "5"@ { "周五"@ }
    else if code == "6"@ { "周六"@ }
    else if code == "7"@ { "周日"@ }
    else { Seq::empty() }
}

/// The class periods: a range where start and end differ, else the start.
pub open spec fn sections_text(start: Seq<char>, end: Seq<char>) -> Seq<char> {
    if start.len() > 0 && end.len() > 0 && start != end {
        "第"@ + start + "-"@ + end + "节"@
    } else if start.len() > 0 {
        "第"@ + start + "节"@
    } else {
        Seq::empty()
    }
}

/// The non-empty texts of `parts`, in order.
pub open spec fn nonempty_parts(parts: Seq<Seq<char>>) -> Seq<Seq<char>>
    decreases parts.len(),
{
    if parts.len() == 0 {
        parts
    } else if parts.last().len() > 0 {
        nonempty_parts(parts.drop_last()).push(parts.last())
    } else {
        nonempty_parts(parts.drop_last())
    }
}

/// One time slot: weeks, weekday and periods, the non-empty ones joined by a space.
pub open spec fn slot_line(item: JsonView) -> Seq<char> {
    join_seq(
        nonempty_parts(seq![
            slot_text(item, "SKZCMC"@),
            weekday_name(slot_text(item, "SKXQ"@)),
            sections_text(slot_text(item, "KSJC"@), slot_text(item, "JSJC"@)),
        ]),
        " "@,
    )
}

pub open spec fn slot_lines(items: Seq<JsonView>) -> Seq<Seq<char>>
    decreases items.len(),
{
    if items.len() == 0 {
        Seq::empty()
    } else {
        slot_lines(items.drop_last()).push(slot_line(items.last()))
    }
}

/// `course.class_time()`: the time slots of `SKSJ`, the non-empty lines
/// joined by `；`; without a `SKSJ` array, the text of `teachingPlaceHide`.
pub open spec fn class_time_spec(raw: JsonView) -> Seq<char> {
    match raw.get("SKSJ"@) {
        Some(JsonView::Array(items)) => join_seq(nonempty_parts(slot_lines(items)), "；"@),
        _ => course_text(raw, "teachingPlaceHide"@),
    }
}

/// The non-empty string `YPSJDD` members of the time slots, in order.
pub open spec fn slot_locations(items: Seq<JsonView>) -> Seq<Seq<char>>
    decreases items.len(),
{
    if items.len() == 0 {
        Seq::empty()
    } else {
        let rest = slot_locations(items.drop_last());
        match str_in(items.last().get("YPSJDD"@)) {
            Some(s) => if s.len() > 0 { rest.push(s) } else { rest },
            None => rest,
        }
    }
}

/// `course.class_location()`: the slot locations with repeats in a row
/// collapsed, joined by `；`; without any, the text of `YPSJDD`.
pub open spec fn class_location_spec(raw: JsonView) -> Seq<char> {
    let locations = match raw.get("SKSJ"@) {
        Some(JsonView::Array(items)) => dedup_seq(slot_locations(items)),
        _ => Seq::empty(),
    };
    if locations.len() == 0 {
        course_text(raw, "YPSJDD"@)
    } else {
        join_seq(locations, "；"@)
    }
}

pub open spec fn has_conflict_spec(raw: JsonView) -> bool {
    course_text(raw, "SFCT"@) == "1"@ || contains_seq(course_text(raw, "conflictDesc"@), "冲突"@)
}

pub open spec fn selectable_spec(raw: JsonView) -> bool {
    course_text(raw, "SFKT"@) == "1"@ && !has_conflict_spec(raw)
}

pub open spec fn enrolled_spec(raw: JsonView) -> bool {
    (match raw.get("_enrolled"@) { Some(v) => v.as_bool() == Some(true), None => false })
        || course_text(raw, "SFYX"@) == "1"@
}

/// The first of `keys` whose text, trimmed, reads as an `i64`.
pub open spec fn first_number(raw: JsonView, keys: Seq<Seq<char>>) -> Option<i64>
    decreases keys.len(),
{
    if keys.len() == 0 {
        None
    } else {
        match parse_i64_seq(trim_seq(course_text(raw, keys[0]))) {
            Some(n) => Some(n),
            None => first_number(raw, keys.drop_first()),
        }
    }
}

/// The position of the first `/`.
pub open spec fn slash_index(s: Seq<char>) -> Option<int>
    decreases s.len(),
{
    if s.len() == 0 {
        None
    } else {
        match slash_index(s.drop_last()) {
            Some(i) => Some(i),
            None => if s.last() == '/' { Some(s.len() - 1) } else { None },
        }
    }
}

/// A `selected/capacity` text: whether selected is below capacity, where
/// both sides read as integers.
pub open spec fn ratio_seat(s: Seq<char>) -> Option<bool> {
    match slash_index(s) {
        Some(i) => match (parse_i64_seq(trim_seq(s.subrange(0, i))), parse_i64_seq(trim_seq(s.subrange(i + 1, s.len() as int)))) {
            (Some(selected), Some(capacity)) => Some(selected < capacity),
            _ => None,
        },
        None => None,
    }
}

pub open spec fn first_ratio(raw: JsonView, keys: Seq<Seq<char>>) -> Option<bool>
    decreases keys.len(),
{
    if keys.len() == 0 {
        None
    } else {
        match ratio_seat(course_text(raw, keys[0])) {
            Some(b) => Some(b),
            None => first_ratio(raw, keys.drop_first()),
        }
    }
}

/// Whether a seat is free: selected below capacity, read from the
/// capacity and count members, else from a `selected/capacity` member;
/// `None` where neither is readable.
pub open spec fn seat_availability_spec(raw: JsonView) -> Option<bool> {
    match (first_number(raw, seq!["KRL"@, "classCapacity"@]), first_number(raw, seq!["YXRS"@, "numberOfSelected"@])) {
        (Some(capacity), Some(selected)) => Some(selected < capacity),
        _ => first_ratio(raw, seq!["QXKCKRL"@, "YXRSKRL"@]),
    }
}

pub open spec fn has_available_seat_spec(raw: JsonView) -> bool {
    seat_availability_spec(raw) == Some(true)
}

/// What a member reads as when the seat fields are read: its text, trimmed,
/// as an `i64`.
pub open spec fn seat_number(raw: JsonView, key: Seq<char>) -> Option<i64> {
    parse_i64_seq(trim_seq(course_text(raw, key)))
}

/// The seats of a class: the capacity is `KRL` where it reads as an
/// integer, else `classCapacity`; the count is `YXRS`, else
/// `numberOfSelected`; where both are known, a seat is free exactly when
/// the count is below the capacity. A field that does not read as an
/// integer never hides the next one.
pub proof fn lemma_seat_fields_fall_back(raw: JsonView, capacity: i64, selected: i64)
    requires
        seat_number(raw, "KRL"@) == Some(capacity)
            || (seat_number(raw, "KRL"@) is None && seat_number(raw, "classCapacity"@) == Some(capacity)),
        seat_number(raw, "YXRS"@) == Some(selected)
            || (seat_number(raw, "YXRS"@) is None && seat_number(raw, "numberOfSelected"@) == Some(selected)),
    ensures
        seat_availability_spec(raw) == Some(selected < capacity),
{
    reveal_with_fuel(first_number, 3);
    assert(seq!["KRL"@, "classCapacity"@].drop_first() =~= seq!["classCapacity"@]);
    assert(seq!["KRL"@, "classCapacity"@].drop_first().drop_first().len() == 0);
    assert(seq!["YXRS"@, "numberOfSelected"@].drop_first() =~= seq!["numberOfSelected"@]);
    assert(seq!["YXRS"@, "numberOfSelected"@].drop_first().drop_first().len() == 0);
}

pub open spec fn search_keys() -> Seq<Seq<char>> {
    seq!["KCH"@, "KCM"@, "KXH"@, "SKJS"@, "SKJSZC"@, "KKDW"@, "KCLB"@]
}

/// `course.searchable_text()`: the listed members, time and place, joined
/// by spaces and lower-cased.
pub open spec fn searchable_text_spec(raw: JsonView) -> Seq<char> {
    lowercase(search_source(raw))
}

/// The searched text before it is lower-cased.
pub open spec fn search_source(raw: JsonView) -> Seq<char> {
    join_seq(search_keys().map_values(|k: Seq<char>| course_text(raw, k)), " "@)
        + " "@ + class_time_spec(raw) + " "@ + class_location_spec(raw)
}

proof fn lemma_contains_in_concat(a: Seq<char>, b: Seq<char>, x: Seq<char>)
    ensures
        contains_seq(a, x) ==> contains_seq(a + b, x),
        contains_seq(b, x) ==> contains_seq(a + b, x),
        contains_seq(a, a),
{
    if contains_seq(a, x) {
        let i = choose|i: int| 0 <= i && i + x.len() <= a.len() && #[trigger] a.subrange(i, i + x.len()) == x;
        assert((a + b).subrange(i, i + x.len()) =~= a.subrange(i, i + x.len()));
    }
    if contains_seq(b, x) {
        let i = choose|i: int| 0 <= i && i + x.len() <= b.len() && #[trigger] b.subrange(i, i + x.len()) == x;
        assert((a + b).subrange(a.len() + i, a.len() + i + x.len()) =~= b.subrange(i, i + x.len()));
    }
    let z: int = 0;
    assert(a.subrange(z, z + a.len()) =~= a);
}

proof fn lemma_join_contains(parts: Seq<Seq<char>>, sep: Seq<char>, i: int)
    requires
        0 <= i < parts.len(),
    ensures
        contains_seq(join_seq(parts, sep), parts[i]),
    decreases parts.len(),
{
    if parts.len() == 1 {
        lemma_contains_in_concat(parts[0], Seq::empty(), parts[0]);
    } else {
        let rest = parts.drop_last();
        if i == parts.len() - 1 {
            lemma_contains_in_concat(parts.last(), Seq::empty(), parts.last());
            lemma_contains_in_concat(join_seq(rest, sep) + sep, parts.last(), parts.last());
        } else {
            assert(rest[i] == parts[i]);
            lemma_join_contains(rest, sep, i);
            lemma_contains_in_concat(join_seq(rest, sep), sep, parts[i]);
            lemma_contains_in_concat(join_seq(rest, sep) + sep, parts.last(), parts[i]);
        }
    }
}

/// The search text of a row is the lower-cased form of a text that holds
/// the row's course number (`KCH`), name, class number, teachers, teaching
/// unit and category, its class times and its places.
pub proof fn lemma_search_covers_row(raw: JsonView)
    ensures
        exists|source: Seq<char>| {
            &&& searchable_text_spec(raw) == lowercase(source)
            &&& contains_seq(source, course_text(raw, "KCH"@))
            &&& contains_seq(source, course_text(raw, "KCM"@))
            &&& contains_seq(source, course_text(raw, "KXH"@))
            &&& contains_seq(source, course_text(raw, "SKJS"@))
            &&& contains_seq(source, course_text(raw, "SKJSZC"@))
            &&& contains_seq(source, course_text(raw, "KKDW"@))
            &&& contains_seq(source, course_text(raw, "KCLB"@))
            &&& contains_seq(source, class_time_spec(raw))
            &&& contains_seq(source, class_location_spec(raw))
        },
{
    let parts = search_keys().map_values(|k: Seq<char>| course_text(raw, k));
    let j = join_seq(parts, " "@);
    let source = search_source(raw);
    let t = class_time_spec(raw);
    let l = class_location_spec(raw);
    assert(source == j + " "@ + t + " "@ + l);
    assert(parts.len() == 7);
    assert forall|m: int| 0 <= m < 7 implies contains_seq(source, #[trigger] parts[m]) by {
        lemma_join_contains(parts, " "@, m);
        lemma_contains_in_concat(j, " "@, parts[m]);
        lemma_contains_in_concat(j + " "@, t, parts[m]);
        lemma_contains_in_concat(j + " "@ + t, " "@, parts[m]);
        lemma_contains_in_concat(j + " "@ + t + " "@, l, parts[m]);
    }
    assert(parts[0] == course_text(raw, "KCH"@));
    assert(parts[1] == course_text(raw, "KCM"@));
    assert(parts[2] == course_text(raw, "KXH"@));
    assert(parts[3] == course_text(raw, "SKJS"@));
    assert(parts[4] == course_text(raw, "SKJSZC"@));
    assert(parts[5] == course_text(raw, "KKDW"@));
    assert(parts[6] == course_text(raw, "KCLB"@));
    lemma_contains_in_concat(t, Seq::empty(), t);
    lemma_contains_in_concat(j + " "@, t, t);
    lemma_contains_in_concat(j + " "@ + t, " "@, t);
    lemma_contains_in_concat(j + " "@ + t + " "@, l, t);
    lemma_contains_in_concat(l, Seq::empty(), l);
    lemma_contains_in_concat(j + " "@ + t + " "@, l, l);
    assert(searchable_text_spec(raw) == lowercase(source));
    assert(contains_seq(source, course_text(raw, "KCH"@)));
    assert(contains_seq(source, course_text(raw, "KCLB"@)));
    assert(contains_seq(source, t));
    assert(contains_seq(source, l));
}

/// The rows of one classes entry that is an object: the parent's members
/// with the class's own members set over them.
pub open spec fn class_rows(parent: Seq<(Seq<char>, JsonView)>, classes: Seq<JsonView>) -> Seq<JsonView>
    decreases classes.len(),
{
    if classes.len() == 0 {
        Seq::empty()
    } else {
        let rest = class_rows(parent, classes.drop_last());
        match classes.last() {
            JsonView::Object(own) => rest.push(JsonView::Object(entries_merge(parent, own))),
            _ => rest,
        }
    }
}

/// `Course::expand_api_row`: a course row whose `tcList` holds classes
/// becomes one row per class object (without `tcList`); any other row stays.
pub open spec fn expand_spec(raw: JsonView) -> Seq<JsonView> {
    match raw {
        JsonView::Object(entries) => match entries_get(entries, "tcList"@) {
            Some(JsonView::Array(classes)) => if classes.len() > 0 {
                class_rows(entries_remove(entries, "tcList"@), classes)
            } else {
                seq![raw]
            },
            _ => seq![raw],
        },
        _ => seq![raw],
    }
}

impl View for Course {
    type V = JsonView;

    open spec fn view(&self) -> JsonView {
        self.raw@
    }
}

// ---------------------------------------------------------------------------
// Courses: executable code
// ---------------------------------------------------------------------------

/// Whether `s` has no characters.
pub fn text_is_empty(s: &String) -> (r: bool)
    ensures
        r == (s@.len() == 0),
{
    s.as_str().unicode_len() == 0
}

fn value_text(v: Option<&JsonValue>) -> (r: String)
    ensures
        r@ == (match v {
            Some(x) => match x@ {
                JsonView::Str(s) => s,
                JsonView::Number(t, _, _) => t,
                JsonView::Bool(b) => if b { "true"@ } else { "false"@ },
                _ => Seq::empty(),
            },
            None => Seq::empty(),
        }),
{
    match v {
        Some(JsonValue::String(s)) => s.clone(),
        Some(JsonValue::Number(n)) => n.text.clone(),
        Some(JsonValue::Bool(b)) => if *b { owned("true") } else { owned("false") },
        _ => String::new(),
    }
}

fn slot_value_text(v: Option<&JsonValue>) -> (r: String)
    ensures
        r@ == (match v {
            Some(x) => match x@ {
                JsonView::Str(s) => s,
                JsonView::Number(t, _, _) => t,
                _ => Seq::empty(),
            },
            None => Seq::empty(),
        }),
{
    match v {
        Some(JsonValue::String(s)) => s.clone(),
        Some(JsonValue::Number(n)) => n.text.clone(),
        _ => String::new(),
    }
}

fn weekday_text(code: &String) -> (r: String)
    ensures
        r@ == weekday_name(code@),
{
    let c = code.as_str();
    if str_eq(c, "1") { owned("周一") }
    else if str_eq(c, "2") { owned("周二") }
    else if str_eq(c, "3") { owned("周三") }
    else if str_eq(c, "4") { owned("周四") }
    else if str_eq(c, "5") { owned("周五") }
    else if str_eq(c, "6") { owned("周六") }
    else if str_eq(c, "7") { owned("周日") }
    else { String::new() }
}

fn sections(start: &String, end: &String) -> (r: String)
    ensures
        r@ == sections_text(start@, end@),
{
    let start_empty = text_is_empty(start);
    let end_empty = text_is_empty(end);
    if !start_empty && !end_empty && !str_eq(start.as_str(), end.as_str()) {
        let mut out = owned("第");
        append_str(&mut out, start.as_str());
        append_str(&mut out, "-");
        append_str(&mut out, end.as_str());
        append_str(&mut out, "节");
        out
    } else if !start_empty {
        let mut out = owned("第");
        append_str(&mut out, start.as_str());
        append_str(&mut out, "节");
        out
    } else {
        String::new()
    }
}

/// The non-empty strings of `parts`, in order.
fn keep_nonempty(parts: Vec<String>) -> (r: Vec<String>)
    ensures
        r@.map_values(|p: String| p@) == nonempty_parts(parts@.map_values(|p: String| p@)),
{
    let ghost views = parts@.map_values(|p: String| p@);
    let mut out: Vec<String> = Vec::new();
    let mut i: usize = 0;
    while i < parts.len()
        invariant
            i <= parts.len(),
            views == parts@.map_values(|p: String| p@),
            out@.map_values(|p: String| p@) == nonempty_parts(views.take(i as int)),
        decreases parts.len() - i,
    {
        let p = parts[i].clone();
        proof {
            assert(views.take(i + 1).drop_last() == views.take(i as int));
            assert(views.take(i + 1).last() == p@);
        }
        if !text_is_empty(&p) {
            out.push(p);
            assert(nonempty_parts(views.take(i + 1)) == nonempty_parts(views.take(i as int)).push(views[i as int]));
            assert(out@.map_values(|p: String| p@) =~= nonempty_parts(views.take(i as int)).push(views[i as int]));
        } else {
            assert(nonempty_parts(views.take(i + 1)) == nonempty_parts(views.take(i as int)));
        }
        i += 1;
    }
    assert(views.take(parts.len() as int) == views);
    out
}

fn format_slot(item: &JsonValue) -> (r: String)
    ensures
        r@ == slot_line(item@),
{
    let weeks = slot_value_text(item.get("SKZCMC"));
    let code = slot_value_text(item.get("SKXQ"));
    let weekday = weekday_text(&code);
    let start = slot_value_text(item.get("KSJC"));
    let end = slot_value_text(item.get("JSJC"));
    let periods = sections(&start, &end);
    let ghost parts = seq![weeks@, weekday@, periods@];
    let mut all: Vec<String> = Vec::new();
    all.push(weeks);
    all.push(weekday);
    all.push(periods);
    assert(all@.map_values(|p: String| p@) =~= parts);
    let kept = keep_nonempty(all);
    join_strings(kept.as_slice(), " ")
}

impl Course {
    /// The text of member `key`: a string as it is, a number as JSON writes
    /// it, a boolean as `true`/`false`, else empty.
    pub fn text(&self, key: &str) -> (r: String)
        ensures
            r@ == course_text(self.raw@, key@),
    {
        value_text(self.raw.get(key))
    }

    /// The teaching-class id: the first non-empty of `JXBID`, `clazzId`,
    /// `teachingClassId`.
    pub fn id(&self) -> (r: String)
        ensures
            r@ == first_text(self.raw@, id_keys()),
    {
        proof { reveal_with_fuel(first_text, 4); }
        let ghost keys = id_keys();
        assert(keys.drop_first() =~= seq!["clazzId"@, "teachingClassId"@]);
        assert(keys.drop_first().drop_first() =~= seq!["teachingClassId"@]);
        assert(keys.drop_first().drop_first().drop_first().len() == 0);
        let a = self.text("JXBID");
        if !text_is_empty(&a) {
            return a;
        }
        let b = self.text("clazzId");
        if !text_is_empty(&b) {
            return b;
        }
        let c = self.text("teachingClassId");
        if !text_is_empty(&c) {
            return c;
        }
        String::new()
    }

    /// The selection secret: the first non-empty of `secretVal`, `secret`,
    /// `SECRETVAL`.
    pub fn secret(&self) -> (r: String)
        ensures
            r@ == first_text(self.raw@, secret_keys()),
    {
        proof { reveal_with_fuel(first_text, 4); }
        let ghost keys = secret_keys();
        assert(keys.drop_first() =~= seq!["secret"@, "SECRETVAL"@]);
        assert(keys.drop_first().drop_first() =~= seq!["SECRETVAL"@]);
        assert(keys.drop_first().drop_first().drop_first().len() == 0);
        let a = self.text("secretVal");
        if !text_is_empty(&a) {
            return a;
        }
        let b = self.text("secret");
        if !text_is_empty(&b) {
            return b;
        }
        let c = self.text("SECRETVAL");
        if !text_is_empty(&c) {
            return c;
        }
        String::new()
    }

    /// The course name (`KCM`).
    pub fn name(&self) -> (r: String)
        ensures
            r@ == course_text(self.raw@, "KCM"@),
    {
        self.text("KCM")
    }

    /// The class times, formatted.
    pub fn class_time(&self) -> (r: String)
        ensures
            r@ == class_time_spec(self.raw@),
    {
        let slots = match self.raw.get("SKSJ") {
            Some(v) => v.as_array(),
            None => None,
        };
        match slots {
            None => self.text("teachingPlaceHide"),
            Some(items) => {
                proof { lemma_items_view(items@); }
                let ghost model = items_view(items@);
                let mut lines: Vec<String> = Vec::new();
                let mut i: usize = 0;
                while i < items.len()
                    invariant
                        i <= items.len(),
                        model == items_view(items@),
                        model.len() == items.len(),
                        forall|k: int| 0 <= k < items.len() ==> #[trigger] model[k] == items@[k]@,
                        lines@.map_values(|p: String| p@) == slot_lines(model.take(i as int)),
                    decreases items.len() - i,
                {
                    let line = format_slot(&items[i]);
                    lines.push(line);
                    proof {
                        assert(model.take(i + 1).drop_last() == model.take(i as int));
                        assert(lines@.map_values(|p: String| p@) =~= slot_lines(model.take(i as int)).push(slot_line(model[i as int])));
                    }
                    i += 1;
                }
                assert(model.take(items.len() as int) == model);
                let kept = keep_nonempty(lines);
                join_strings(kept.as_slice(), "；")
            },
        }
    }

    /// The class locations, formatted.
    pub fn class_location(&self) -> (r: String)
        ensures
            r@ == class_location_spec(self.raw@),
    {
        let slots = match self.raw.get("SKSJ") {
            Some(v) => v.as_array(),
            None => None,
        };
        let mut locations: Vec<String> = Vec::new();
        let ghost found: Seq<Seq<char>> = Seq::empty();
        if let Some(items) = slots {
            proof { lemma_items_view(items@); }
            let ghost model = items_view(items@);
            let mut i: usize = 0;
            while i < items.len()
                invariant
                    i <= items.len(),
                    model == items_view(items@),
                    model.len() == items.len(),
                    forall|k: int| 0 <= k < items.len() ==> #[trigger] model[k] == items@[k]@,
                    locations@.map_values(|p: String| p@) == slot_locations(model.take(i as int)),
                decreases items.len() - i,
            {
                proof {
                    assert(model.take(i + 1).drop_last() == model.take(i as int));
                    assert(model.take(i + 1).last() == items@[i as int]@);
                }
                let place = items[i].get("YPSJDD");
                if let Some(p) = place {
                    if let Some(s) = p.as_str() {
                        if !text_is_empty(s) {
                            locations.push(s.clone());
                            assert(locations@.map_values(|p: String| p@) =~= slot_locations(model.take(i as int)).push(s@));
                        }
                    }
                }
                i += 1;
            }
            assert(model.take(items.len() as int) == model);
        }
        let deduped = dedup_strings(locations);
        if deduped.len() == 0 {
            self.text("YPSJDD")
        } else {
            join_strings(deduped.as_slice(), "；")
        }
    }

    /// Whether the class conflicts with the timetable.
    pub fn has_conflict(&self) -> (r: bool)
        ensures
            r == has_conflict_spec(self.raw@),
    {
        let flag = self.text("SFCT");
        if str_eq(flag.as_str(), "1") {
            return true;
        }
        let desc = self.text("conflictDesc");
        str_contains(desc.as_str(), "冲突")
    }

    /// Whether the class can be chosen: open, and no conflict.
    pub fn selectable(&self) -> (r: bool)
        ensures
            r == selectable_spec(self.raw@),
    {
        let open = self.text("SFKT");
        str_eq(open.as_str(), "1") && !self.has_conflict()
    }

    /// Whether the class is already chosen.
    pub fn enrolled(&self) -> (r: bool)
        ensures
            r == enrolled_spec(self.raw@),
    {
        let marked = match self.raw.get("_enrolled") {
            Some(v) => v.as_bool() == Some(true),
            None => false,
        };
        if marked {
            return true;
        }
        let flag = self.text("SFYX");
        str_eq(flag.as_str(), "1")
    }

    fn number_of(&self, first: &str, second: &str) -> (r: Option<i64>)
        ensures
            r == first_number(self.raw@, seq![first@, second@]),
    {
        proof { reveal_with_fuel(first_number, 3); }
        let ghost keys = seq![first@, second@];
        assert(keys.drop_first() =~= seq![second@]);
        assert(keys.drop_first().drop_first().len() == 0);
        let a = self.text(first);
        match parse_trimmed_i64(a.as_str()) {
            Some(n) => Some(n),
            None => {
                let b = self.text(second);
                parse_trimmed_i64(b.as_str())
            },
        }
    }

    /// Whether a seat is free; `None` where the row does not say.
    pub fn seat_availability(&self) -> (r: Option<bool>)
        ensures
            r == seat_availability_spec(self.raw@),
    {
        let capacity = self.number_of("KRL", "classCapacity");
        let selected = self.number_of("YXRS", "numberOfSelected");
        if let (Some(capacity), Some(selected)) = (capacity, selected) {
            return Some(selected < capacity);
        }
        proof { reveal_with_fuel(first_ratio, 3); }
        let ghost keys = seq!["QXKCKRL"@, "YXRSKRL"@];
        assert(keys.drop_first() =~= seq!["YXRSKRL"@]);
        assert(keys.drop_first().drop_first().len() == 0);
        let a = self.text("QXKCKRL");
        match ratio_of(a.as_str()) {
            Some(b) => Some(b),
            None => {
                let b = self.text("YXRSKRL");
                ratio_of(b.as_str())
            },
        }
    }

    /// Whether a seat is known to be free.
    pub fn has_available_seat(&self) -> (r: bool)
        ensures
            r == has_available_seat_spec(self.raw@),
    {
        match self.seat_availability() {
            Some(b) => b,
            None => false,
        }
    }

    /// The lower-cased text that the course filter searches.
    pub fn searchable_text(&self) -> (r: String)
        ensures
            r@ == searchable_text_spec(self.raw@),
    {
        let mut parts: Vec<String> = Vec::new();
        parts.push(self.text("KCH"));
        parts.push(self.text("KCM"));
        parts.push(self.text("KXH"));
        parts.push(self.text("SKJS"));
        parts.push(self.text("SKJSZC"));
        parts.push(self.text("KKDW"));
        parts.push(self.text("KCLB"));
        assert(parts@.map_values(|p: String| p@) =~= search_keys().map_values(|k: Seq<char>| course_text(self.raw@, k)));
        let mut text = join_strings(parts.as_slice(), " ");
        append_str(&mut text, " ");
        let time = self.class_time();
        append_str(&mut text, time.as_str());
        append_str(&mut text, " ");
        let place = self.class_location();
        append_str(&mut text, place.as_str());
        to_lowercase(text.as_str())
    }
}

/// `selected/capacity`: whether selected is below capacity.
fn ratio_of(s: &str) -> (r: Option<bool>)
    ensures
        r == ratio_seat(s@),
{
    let v = chars_of(s);
    let mut i: usize = 0;
    while i < v.len()
        invariant
            i <= v.len(),
            v@ == s@,
            slash_index(v@.take(i as int)) is None,
        decreases v.len() - i,
    {
        assert(v@.take(i + 1).drop_last() == v@.take(i as int));
        if v[i] == '/' {
            proof { lemma_slash_prefix(v@, i as int); }
            let mut left: Vec<char> = Vec::new();
            let mut k: usize = 0;
            while k < i
                invariant
                    k <= i,
                    i < v.len(),
                    left@ == v@.subrange(0, k as int),
                decreases i - k,
            {
                left.push(v[k]);
                assert(v@.subrange(0, k + 1) == v@.subrange(0, k as int).push(v@[k as int]));
                k += 1;
            }
            let mut right: Vec<char> = Vec::new();
            let mut m: usize = i + 1;
            while m < v.len()
                invariant
                    i + 1 <= m <= v.len(),
                    right@ == v@.subrange(i + 1, m as int),
                decreases v.len() - m,
            {
                right.push(v[m]);
                assert(v@.subrange(i + 1, m + 1) == v@.subrange(i + 1, m as int).push(v@[m as int]));
                m += 1;
            }
            let lt = trim_chars(left.as_slice());
            let rt = trim_chars(right.as_slice());
            let selected = parse_i64_chars(lt.as_slice());
            let capacity = parse_i64_chars(rt.as_slice());
            return match (selected, capacity) {
                (Some(a), Some(b)) => Some(a < b),
                _ => None,
            };
        }
        i += 1;
    }
    assert(v@.take(v.len() as int) == v@);
    None
}

proof fn lemma_slash_prefix(s: Seq<char>, i: int)
    requires
        0 <= i < s.len(),
        s[i] == '/',
        slash_index(s.take(i)) is None,
    ensures
        slash_index(s) == Some(i),
    decreases s.len() - i,
{
    if i + 1 < s.len() {
        assert(s.drop_last().take(i) == s.take(i));
        lemma_slash_prefix(s.drop_last(), i);
    } else {
        assert(s.drop_last() == s.take(i));
    }
}

/// `base` with a copy of each entry of `own` set over it.
fn merge_class(base: &Vec<(String, JsonValue)>, own: &Vec<(String, JsonValue)>) -> (r: Vec<(String, JsonValue)>)
    ensures
        entries_view(r@) == entries_merge(entries_view(base@), entries_view(own@)),
{
    proof { lemma_entries_view(own@); }
    let ghost model = entries_view(own@);
    let mut merged = duplicate_entries(base);
    let mut j: usize = 0;
    while j < own.len()
        invariant
            j <= own.len(),
            model == entries_view(own@),
            model.len() == own.len(),
            forall|k: int| 0 <= k < own.len() ==> #[trigger] model[k] == (own@[k].0@, json_view(own@[k].1)),
            entries_view(merged@) == entries_merge(entries_view(base@), model.take(j as int)),
        decreases own.len() - j,
    {
        let key = own[j].0.clone();
        let value = own[j].1.duplicate();
        insert_entry(&mut merged, key, value);
        proof {
            assert(model.take(j + 1).drop_last() == model.take(j as int));
            assert(model.take(j + 1).last() == model[j as int]);
        }
        j += 1;
    }
    assert(model.take(own.len() as int) == model);
    merged
}

impl Course {
    /// A course row as the list gives it: a row whose `tcList` holds
    /// teaching classes becomes one row per class, the class's members set
    /// over the row's own (without `tcList`).
    pub fn expand_api_row(raw: JsonValue) -> (r: Vec<Course>)
        ensures
            r@.map_values(|c: Course| c.raw@) == expand_spec(raw@),
    {
        if let JsonValue::Object(entries) = &raw {
            proof { lemma_entries_view(entries@); }
            if let Some(JsonValue::Array(classes)) = raw.get("tcList") {
                if classes.len() > 0 {
                    proof { lemma_items_view(classes@); }
                    let ghost class_model = items_view(classes@);
                    let parent = entries_without(entries, "tcList");
                    let ghost parent_model = entries_view(parent@);
                    let mut rows: Vec<Course> = Vec::new();
                    let mut i: usize = 0;
                    while i < classes.len()
                        invariant
                            i <= classes.len(),
                            class_model == items_view(classes@),
                            class_model.len() == classes.len(),
                            forall|k: int| 0 <= k < classes.len() ==> #[trigger] class_model[k] == classes@[k]@,
                            parent_model == entries_view(parent@),
                            rows@.map_values(|c: Course| c.raw@) == class_rows(parent_model, class_model.take(i as int)),
                        decreases classes.len() - i,
                    {
                        proof {
                            assert(class_model.take(i + 1).drop_last() == class_model.take(i as int));
                            assert(class_model.take(i + 1).last() == classes@[i as int]@);
                        }
                        if let JsonValue::Object(own) = &classes[i] {
                            let merged = merge_class(&parent, own);
                            let ghost before = rows@;
                            rows.push(Course { raw: JsonValue::Object(merged) });
                            assert(rows@.map_values(|c: Course| c.raw@) =~= before.map_values(|c: Course| c.raw@).push(JsonView::Object(entries_view(merged@))));
                        }
                        i += 1;
                    }
                    assert(class_model.take(classes.len() as int) == class_model);
                    return rows;
                }
            }
        }
        let ghost view = raw@;
        let mut rows: Vec<Course> = Vec::new();
        rows.push(Course { raw });
        assert(rows@.map_values(|c: Course| c.raw@) =~= seq![view]);
        rows
    }
}

/// A row that `expand_api_row` makes from a class object reads each of the
/// class's members as the class has it, and every other member except
/// `tcList` as the parent row has it; `tcList` is gone.
pub proof fn lemma_expanded_row_members(
    parent: Seq<(Seq<char>, JsonView)>,
    own: Seq<(Seq<char>, JsonView)>,
    q: Seq<char>,
)
    requires
        entries_keys_unique(own),
    ensures
        entries_get(entries_merge(entries_remove(parent, "tcList"@), own), q) == (match entries_get(own, q) {
            Some(v) => Some(v),
            None => if q == "tcList"@ { None } else { entries_get(parent, q) },
        }),
{
    lemma_entries_merge_get(entries_remove(parent, "tcList"@), own, q);
    lemma_reverse_get_unique(own, q);
    lemma_entries_remove_get(parent, "tcList"@, q);
}

} // verus!
