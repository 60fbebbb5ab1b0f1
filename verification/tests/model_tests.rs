use xk_rust::json::JsonValue;
use xk_rust::model::{Batch, Course, Prefs};

fn obj(pairs: Vec<(&str, JsonValue)>) -> JsonValue {
    JsonValue::Object(pairs.into_iter().map(|(k, v)| (k.to_owned(), v)).collect())
}

fn s(text: &str) -> JsonValue {
    JsonValue::text(text)
}

#[test]
fn selectable_course_requires_no_conflict() {
    let selectable = Course {
        raw: obj(vec![("SFKT", s("1")), ("SFCT", s("0")), ("KCM", s("Rust"))]),
    };
    let conflict = Course {
        raw: obj(vec![("SFKT", s("1")), ("SFCT", s("1")), ("KCM", s("Rust"))]),
    };
    assert!(selectable.selectable());
    assert!(!conflict.selectable());
}

#[test]
fn course_id_supports_site_field() {
    let course = Course {
        raw: obj(vec![("JXBID", s("class-42"))]),
    };
    assert_eq!(course.id(), "class-42");
}

#[test]
fn nested_course_rows_expand_to_teaching_classes() {
    let rows = Course::expand_api_row(obj(vec![
        ("KCH", s("C01")),
        ("KCM", s("Course")),
        (
            "tcList",
            JsonValue::Array(vec![
                obj(vec![("JXBID", s("J1")), ("KXH", s("001")), ("SFKT", s("1"))]),
                obj(vec![("JXBID", s("J2")), ("KXH", s("002")), ("SFKT", s("0"))]),
            ]),
        ),
    ]));
    assert_eq!(rows.len(), 2);
    assert_eq!(rows[0].text("KCM"), "Course");
    assert_eq!(rows[1].id(), "J2");
}

#[test]
fn formats_class_time_and_deduplicates_location() {
    let slot = |day: &str| {
        obj(vec![
            ("SKZCMC", s("1-16周")),
            ("SKXQ", s(day)),
            ("KSJC", s("5")),
            ("JSJC", s("6")),
            ("YPSJDD", s("A7-101")),
        ])
    };
    let course = Course {
        raw: obj(vec![("SKSJ", JsonValue::Array(vec![slot("5"), slot("3")]))]),
    };
    assert_eq!(course.class_time(), "1-16周 周五 第5-6节；1-16周 周三 第5-6节");
    assert_eq!(course.class_location(), "A7-101");
}

#[test]
fn detects_available_seat_from_site_capacity_fields() {
    let available = Course {
        raw: obj(vec![("KRL", s("30")), ("YXRS", s("29"))]),
    };
    let full = Course {
        raw: obj(vec![("classCapacity", JsonValue::integer(30)), ("numberOfSelected", JsonValue::integer(30))]),
    };
    assert!(available.has_available_seat());
    assert!(!full.has_available_seat());
}

#[test]
fn enrolled_marker_is_recognized() {
    assert!(Course { raw: obj(vec![("_enrolled", JsonValue::Bool(true))]) }.enrolled());
    assert!(Course { raw: obj(vec![("SFYX", s("1"))]) }.enrolled());
}

#[test]
fn preferences_of_a_first_run() {
    let prefs = Prefs::with_defaults();
    assert!(prefs.username.is_empty() && prefs.password.is_empty());
    assert!(prefs.only_selectable && !prefs.only_available);
    assert_eq!(prefs.page_interval_ms, 1_800);
    assert_eq!(prefs.list_403_retry, 10);
    assert_eq!(prefs.penalty_ms, 1_500);
    assert_eq!(prefs.click_interval_ms, 250);
    assert_eq!(prefs.click_times, 50);
    assert!(prefs.keep_alive);
    assert_eq!(prefs.keep_alive_seconds, 25);
    assert!(!prefs.select_any_available && !prefs.auto_relogin);
}

#[test]
fn seat_falls_back_to_ratio_field() {
    let course = Course { raw: obj(vec![("QXKCKRL", s(" 12 / 40 "))]) };
    assert_eq!(course.seat_availability(), Some(true));
    let full = Course { raw: obj(vec![("YXRSKRL", s("40/40"))]) };
    assert_eq!(full.seat_availability(), Some(false));
    let unknown = Course { raw: obj(vec![("KRL", s("many"))]) };
    assert_eq!(unknown.seat_availability(), None);
}

#[test]
fn conflict_description_blocks_selection() {
    let course = Course {
        raw: obj(vec![("SFKT", s("1")), ("SFCT", s("0")), ("conflictDesc", s("与已选课程时间冲突"))]),
    };
    assert!(course.has_conflict());
    assert!(!course.selectable());
}

#[test]
fn expanded_rows_keep_parent_members_under_class_members() {
    let rows = Course::expand_api_row(obj(vec![
        ("KCM", s("Parent")),
        ("KXH", s("000")),
        ("tcList", JsonValue::Array(vec![obj(vec![("KXH", s("007"))])])),
    ]));
    assert_eq!(rows.len(), 1);
    assert_eq!(rows[0].text("KCM"), "Parent");
    assert_eq!(rows[0].text("KXH"), "007");
}

#[test]
fn row_without_classes_stays_one_course() {
    let rows = Course::expand_api_row(obj(vec![("JXBID", s("X1"))]));
    assert_eq!(rows.len(), 1);
    assert_eq!(rows[0].id(), "X1");
}

#[test]
fn search_text_is_lower_cased() {
    let course = Course { raw: obj(vec![("KCM", s("Rust Programming")), ("SKJS", s("ZHANG"))]) };
    let text = course.searchable_text();
    assert!(text.contains("rust programming"));
    assert!(text.contains("zhang"));
    assert!(!text.contains("ZHANG"));
}

#[test]
fn batch_reads_serde_field_names() {
    let value = obj(vec![
        ("code", s("B1")),
        ("name", s("第一轮")),
        ("schoolTermName", s("2025春")),
        ("beginTime", s("09:00")),
        ("endTime", s("18:00")),
        ("canSelect", s("1")),
        ("noSelectReason", JsonValue::Null),
        ("group", s("普通")),
    ]);
    let batch: Batch = Batch::from_json(&value).expect("a batch");
    assert_eq!(batch.code, "B1");
    assert_eq!(batch.school_term_name, "2025春");
    assert_eq!(batch.no_select_reason, None);
}
