use xk_rust::rounds::{keepalive_report, KeepAlive};
use xk_rust::failure::{Failure, FailureKind};
use xk_rust::json::JsonValue;
use xk_rust::model::{Course, Prefs};
use xk_rust::network::VpnRequired;
use xk_rust::relogin::{ReloginDecision, ReloginAllowance};
use xk_rust::rob::{
    available_candidates, course_status, course_visible, display_names, merge_enrolled, pick_courses,
    selection_succeeded, stop_after_submission_error, visible_indices, WorkerEvent,
};
use xk_rust::rounds::{RobAction, RobAnswer, RobPhase, RobTask};
use xk_rust::swap::{swap_pair, SwapAction, SwapAnswer, SwapPhase, SwapTask};

fn obj(pairs: Vec<(&str, JsonValue)>) -> JsonValue {
    JsonValue::Object(pairs.into_iter().map(|(k, v)| (k.to_owned(), v)).collect())
}

fn s(text: &str) -> JsonValue {
    JsonValue::text(text)
}

fn course(pairs: Vec<(&str, JsonValue)>) -> Course {
    Course { raw: obj(pairs) }
}

fn open_course(id: &str, name: &str, selected: &str) -> Course {
    course(vec![
        ("JXBID", s(id)),
        ("KCM", s(name)),
        ("SFKT", s("1")),
        ("SFCT", s("0")),
        ("KRL", s("30")),
        ("YXRS", s(selected)),
    ])
}

#[test]
fn http_success_code_does_not_hide_business_failure() {
    assert!(!selection_succeeded(&obj(vec![
        ("code", JsonValue::integer(200)),
        ("data", JsonValue::Bool(false)),
        ("msg", s("选课失败，课程已满")),
    ])));
}

#[test]
fn selection_success_accepts_boolean_data_or_explicit_message() {
    assert!(selection_succeeded(&obj(vec![("code", JsonValue::integer(200)), ("data", JsonValue::Bool(true))])));
    assert!(selection_succeeded(&obj(vec![("code", JsonValue::integer(200)), ("msg", s("选课成功"))])));
}

#[test]
fn selection_success_reads_number_text_and_object_data() {
    assert!(selection_succeeded(&obj(vec![("data", JsonValue::integer(1))])));
    assert!(!selection_succeeded(&obj(vec![("data", JsonValue::integer(2))])));
    assert!(selection_succeeded(&obj(vec![("data", s(" success "))])));
    assert!(selection_succeeded(&obj(vec![("data", obj(vec![("success", JsonValue::Bool(true))]))])));
    assert!(!selection_succeeded(&obj(vec![("data", obj(vec![("success", s("true"))]))])));
    assert!(!selection_succeeded(&obj(vec![("msg", s("成功后失败"))])));
}

#[test]
fn vpn_error_survives_context_and_reaches_connection_guide() {
    let error = VpnRequired.into_failure().context("验证码请求失败".to_owned());
    assert!(matches!(
        WorkerEvent::from_error(&error),
        WorkerEvent::VpnRequired { task_finished: false, detail: Some(detail) } if detail == "验证码请求失败"
    ));
    assert!(matches!(WorkerEvent::from_error(&Failure::msg("HTTP 401")), WorkerEvent::Error(_)));
}

#[test]
fn bare_vpn_demand_has_no_detail() {
    assert!(matches!(
        WorkerEvent::from_error(&VpnRequired.into_failure()),
        WorkerEvent::VpnRequired { task_finished: false, detail: None }
    ));
    match WorkerEvent::from_error(&Failure::msg("原因").context("外层".to_owned())) {
        WorkerEvent::Error(text) => assert_eq!(text, "外层: 原因"),
        _ => panic!("expected an error report"),
    }
}

#[test]
fn uncertain_submission_stops_further_rounds() {
    let mut stopped = false;
    let message = stop_after_submission_error("测试课程", &Failure::msg("HTTP 200 HTML"), &mut stopped);
    assert!(stopped);
    assert!(message.contains("未继续重试"));
    assert!(message.contains("确认本次提交结果"));
}

#[test]
fn available_filter_hides_full_courses_but_keeps_enrolled_course() {
    let prefs = Prefs { only_available: true, ..Prefs::with_defaults() };
    let available = course(vec![("SFKT", s("1")), ("KRL", s("30")), ("YXRS", s("29"))]);
    let full = course(vec![("SFKT", s("1")), ("KRL", s("30")), ("YXRS", s("30"))]);
    let enrolled = course(vec![("_enrolled", JsonValue::Bool(true)), ("KRL", s("30")), ("YXRS", s("30"))]);
    assert!(course_visible(&available, &prefs, ""));
    assert!(!course_visible(&full, &prefs, ""));
    assert!(course_visible(&enrolled, &prefs, ""));
}

#[test]
fn any_available_mode_uses_all_eligible_courses_without_targets() {
    let courses = vec![
        course(vec![("JXBID", s("A")), ("SFKT", s("1")), ("SFCT", s("0")), ("KRL", s("30")), ("YXRS", s("29"))]),
        course(vec![("JXBID", s("B")), ("SFKT", s("1")), ("SFCT", s("0")), ("KRL", s("30")), ("YXRS", s("28"))]),
        course(vec![("JXBID", s("C")), ("SFKT", s("1")), ("SFCT", s("1")), ("KRL", s("30")), ("YXRS", s("20"))]),
    ];
    let already_successful = vec!["A".to_owned()];
    let candidates = available_candidates(courses, &already_successful);
    assert_eq!(candidates.len(), 1);
    assert_eq!(candidates[0].id(), "B");
}

#[test]
fn filter_searches_lower_cased_text() {
    let prefs = Prefs { only_selectable: false, ..Prefs::with_defaults() };
    let courses = vec![
        course(vec![("KCM", s("Rust 程序设计"))]),
        course(vec![("KCM", s("高等数学"))]),
    ];
    assert_eq!(visible_indices(&courses, &prefs, "  RUST "), vec![0]);
    assert_eq!(visible_indices(&courses, &prefs, ""), vec![0, 1]);
}

#[test]
fn state_column_names_each_case() {
    assert_eq!(course_status(&course(vec![("SFYX", s("1"))])), "已选");
    assert_eq!(course_status(&open_course("A", "a", "10")), "未满·可选");
    assert_eq!(course_status(&open_course("A", "a", "30")), "已满");
    assert_eq!(course_status(&course(vec![("SFKT", s("1"))])), "可选·余量未知");
    assert_eq!(course_status(&course(vec![("SFKT", s("1")), ("SFCT", s("1"))])), "冲突");
    assert_eq!(course_status(&course(vec![("SFKT", s("0"))])), "不可选");
}

#[test]
fn names_for_messages() {
    assert_eq!(display_names(&Vec::new()), "无");
    assert_eq!(display_names(&vec!["甲".to_owned(), "乙".to_owned()]), "甲、乙");
}

#[test]
fn ticked_rows_skip_stale_indices() {
    let courses = vec![open_course("A", "a", "1"), open_course("B", "b", "1")];
    let picked = pick_courses(&courses, &vec![1, 5, 0]);
    assert_eq!(picked.len(), 2);
    assert_eq!(picked[0].id(), "B");
    assert_eq!(picked[1].id(), "A");
}

#[test]
fn enrolled_list_is_marked_and_not_repeated() {
    let courses = vec![open_course("A", "a", "1")];
    let enrolled = vec![open_course("A", "a", "1"), open_course("Z", "z", "1")];
    let merged = merge_enrolled(courses, Ok(enrolled)).ok().unwrap();
    assert_eq!(merged.len(), 2);
    assert!(!merged[0].enrolled());
    assert_eq!(merged[1].id(), "Z");
    assert!(merged[1].enrolled());
    let kept = merge_enrolled(vec![open_course("A", "a", "1")], Err(Failure::msg("HTTP 500"))).ok().unwrap();
    assert_eq!(kept.len(), 1);
    let vpn = merge_enrolled(vec![], Err(VpnRequired.into_failure()));
    assert!(matches!(vpn, Err(e) if e.kind == FailureKind::VpnRequired));
}

#[test]
fn rounds_submit_each_course_and_keep_failures_for_next_round() {
    let mut task = RobTask::new(vec![open_course("A", "甲", "1"), open_course("B", "乙", "1")], false, 2, 0);
    let step = task.step(false, RobAnswer::Resumed);
    assert!(matches!(&step.action, RobAction::Submit(c) if c.id() == "A"));
    let step = task.step(false, RobAnswer::Submitted(Ok(obj(vec![("code", JsonValue::integer(200)), ("data", JsonValue::Bool(true)), ("msg", s("ok"))]))));
    assert_eq!(step.status.as_deref(), Some("轮次 1/2 | 甲: code=200, ok"));
    assert!(matches!(step.action, RobAction::Wait(0)));
    let step = task.step(false, RobAnswer::Resumed);
    assert!(matches!(&step.action, RobAction::Submit(c) if c.id() == "B"));
    let step = task.step(false, RobAnswer::Submitted(Ok(obj(vec![("data", JsonValue::Bool(false))]))));
    assert!(matches!(step.action, RobAction::Wait(_)));
    let step = task.step(false, RobAnswer::Resumed);
    assert_eq!(task.round, 2);
    assert!(matches!(&step.action, RobAction::Submit(c) if c.id() == "B"));
    task.step(false, RobAnswer::Submitted(Ok(obj(vec![("data", JsonValue::Bool(false))]))));
    let step = task.step(false, RobAnswer::Resumed);
    match step.action {
        RobAction::Finished { successful, pending, failure } => {
            assert_eq!(successful, vec!["甲".to_owned()]);
            assert_eq!(pending, vec!["乙".to_owned()]);
            assert!(failure.is_none());
        }
        _ => panic!("expected the end of the task"),
    }
    assert_eq!(task.phase, RobPhase::Done);
}

#[test]
fn an_uncertain_submission_ends_the_rounds() {
    let mut task = RobTask::new(vec![open_course("A", "甲", "1"), open_course("B", "乙", "1")], false, 50, 250);
    task.step(false, RobAnswer::Resumed);
    let step = task.step(false, RobAnswer::Submitted(Err(Failure::msg("HTTP 200 HTML"))));
    assert!(task.stopped);
    assert!(step.alert.is_none());
    let step = task.step(false, RobAnswer::Resumed);
    match step.action {
        RobAction::Finished { pending, failure, .. } => {
            assert_eq!(pending, vec!["甲".to_owned(), "乙".to_owned()]);
            assert!(failure.unwrap().contains("未继续重试"));
        }
        _ => panic!("no further submission may follow"),
    }
}

#[test]
fn a_stop_request_ends_before_the_next_submission() {
    let mut task = RobTask::new(vec![open_course("A", "甲", "1")], false, 3, 0);
    let step = task.step(true, RobAnswer::Resumed);
    assert!(matches!(step.action, RobAction::Finished { .. }));
}

#[test]
fn any_course_mode_lists_then_stops_at_first_success() {
    let mut task = RobTask::new(Vec::new(), true, 5, 100);
    let step = task.step(false, RobAnswer::Resumed);
    assert!(matches!(step.action, RobAction::FetchAvailable));
    let step = task.step(false, RobAnswer::Listed(Ok(vec![])));
    assert_eq!(step.status.as_deref(), Some("任意未满课程查询 1/5：发现 0 门可选课程"));
    assert!(matches!(step.action, RobAction::Wait(500)));
    let step = task.step(false, RobAnswer::Resumed);
    assert!(matches!(step.action, RobAction::FetchAvailable));
    assert_eq!(task.round, 2);
    let step = task.step(false, RobAnswer::Listed(Ok(vec![open_course("X", "某课", "3"), open_course("Y", "满课", "30")])));
    assert!(matches!(&step.action, RobAction::Submit(c) if c.id() == "X"));
    let step = task.step(false, RobAnswer::Submitted(Ok(obj(vec![("msg", s("选课成功"))]))));
    match step.action {
        RobAction::Finished { successful, .. } => assert_eq!(successful, vec!["某课".to_owned()]),
        _ => panic!("the first success ends the any-course mode"),
    }
}

#[test]
fn expired_login_ends_the_any_course_mode() {
    let mut task = RobTask::new(Vec::new(), true, 5, 100);
    task.step(false, RobAnswer::Resumed);
    let step = task.step(false, RobAnswer::Listed(Err(Failure::of_kind(FailureKind::SessionExpired, "登录页".to_owned()))));
    match step.action {
        RobAction::Finished { failure, .. } => {
            assert_eq!(failure.unwrap(), "登录会话已失效，且未能自动恢复：登录页\n任务已停止，请重新登录后再试。")
        }
        _ => panic!("expected the end"),
    }
}

#[test]
fn vpn_demand_while_listing_stops_the_task() {
    let mut task = RobTask::new(Vec::new(), true, 5, 100);
    task.step(false, RobAnswer::Resumed);
    let step = task.step(false, RobAnswer::Listed(Err(VpnRequired.into_failure())));
    assert!(step.alert.is_some());
    assert!(task.stopped);
    let step = task.step(false, RobAnswer::Resumed);
    assert!(matches!(step.action, RobAction::Finished { .. }));
}

#[test]
fn swap_needs_exactly_one_chosen_and_one_target() {
    let a = course(vec![("JXBID", s("A")), ("SFYX", s("1"))]);
    let b = course(vec![("JXBID", s("B"))]);
    assert_eq!(swap_pair(&vec![]).err().unwrap(), "换课模式请只勾选两门：当前已选 A 和目标 B");
    assert_eq!(
        swap_pair(&vec![course(vec![("JXBID", s("B"))]), course(vec![("JXBID", s("C"))])]).err().unwrap(),
        "两门课程中没有识别到当前已选课程 A（状态应显示“已选”）"
    );
    assert_eq!(
        swap_pair(&vec![course(vec![("SFYX", s("1"))]), course(vec![("SFYX", s("1"))])]).err().unwrap(),
        "两门课程中没有目标课程 B"
    );
    let (current, target) = swap_pair(&vec![b, a]).ok().unwrap();
    assert_eq!(current.id(), "A");
    assert_eq!(target.id(), "B");
}

#[test]
fn swap_drops_a_only_when_b_has_a_seat() {
    let a = course(vec![("JXBID", s("A")), ("KCM", s("甲")), ("SFYX", s("1"))]);
    let b = course(vec![("JXBID", s("B")), ("KCM", s("乙"))]);
    let mut task = SwapTask::new(a, b, 3, 0);
    assert!(matches!(task.step(false, SwapAnswer::Resumed).action, SwapAction::FetchAvailable));
    let step = task.step(false, SwapAnswer::Listed(Ok(vec![open_course("B", "乙", "30")])));
    assert_eq!(step.status.as_deref(), Some("换课轮次 1/3：乙 暂无余量，保留 甲"));
    assert!(matches!(step.action, SwapAction::Wait(500)));
    task.step(false, SwapAnswer::Resumed);
    let step = task.step(false, SwapAnswer::Listed(Ok(vec![open_course("C", "丙", "1")])));
    assert_eq!(step.status.as_deref(), Some("未满课程查询 2/3：乙 暂无余量，保留 甲"));
    task.step(false, SwapAnswer::Resumed);
    let step = task.step(false, SwapAnswer::Listed(Ok(vec![open_course("B", "乙", "29")])));
    assert_eq!(step.status.as_deref(), Some("乙 已有空位，正在退选 甲"));
    assert!(matches!(&step.action, SwapAction::Drop(c) if c.id() == "A"));
    let step = task.step(false, SwapAnswer::Dropped(Ok(obj(vec![("data", JsonValue::Bool(true))]))));
    assert!(matches!(&step.action, SwapAction::Select { course, delay_ms: 300 } if course.id() == "B"));
    let step = task.step(false, SwapAnswer::Selected(Ok(obj(vec![("data", JsonValue::Bool(true))]))));
    match step.action {
        SwapAction::Finished(WorkerEvent::RobFinished { successful, pending, failure }) => {
            assert_eq!(successful, vec!["乙".to_owned()]);
            assert!(pending.is_empty() && failure.is_none());
        }
        _ => panic!("expected success"),
    }
    assert_eq!(task.phase, SwapPhase::Done);
}

#[test]
fn swap_chooses_a_again_when_b_is_refused() {
    let a = course(vec![("JXBID", s("A")), ("KCM", s("甲")), ("SFYX", s("1"))]);
    let b = course(vec![("JXBID", s("B")), ("KCM", s("乙"))]);
    let mut task = SwapTask::new(a, b, 1, 0);
    task.step(false, SwapAnswer::Resumed);
    task.step(false, SwapAnswer::Listed(Ok(vec![open_course("B", "乙", "1")])));
    task.step(false, SwapAnswer::Dropped(Ok(obj(vec![("msg", s("退课成功"))]))));
    let step = task.step(false, SwapAnswer::Selected(Ok(obj(vec![("msg", s("课程已满"))]))));
    assert!(matches!(&step.action, SwapAction::Rollback(c) if c.id() == "A"));
    let step = task.step(false, SwapAnswer::RolledBack(Ok(obj(vec![("data", JsonValue::Bool(true))]))));
    match step.action {
        SwapAction::Finished(WorkerEvent::Error(text)) => assert_eq!(text, "B 选课失败：课程已满；已尝试回选 A"),
        _ => panic!("expected the rollback report"),
    }
}

#[test]
fn swap_never_retries_an_uncertain_drop() {
    let a = course(vec![("JXBID", s("A")), ("KCM", s("甲")), ("SFYX", s("1"))]);
    let b = course(vec![("JXBID", s("B")), ("KCM", s("乙"))]);
    let mut task = SwapTask::new(a, b, 9, 0);
    task.step(false, SwapAnswer::Resumed);
    task.step(false, SwapAnswer::Listed(Ok(vec![open_course("B", "乙", "1")])));
    let step = task.step(false, SwapAnswer::Dropped(Err(Failure::msg("超时"))));
    match step.action {
        SwapAction::Finished(WorkerEvent::Error(text)) => {
            assert_eq!(text, "退选 甲 请求异常：超时\n结果未确认，未继续选 B；请核对实际已选课程。")
        }
        _ => panic!("an uncertain drop ends the swap"),
    }
}

#[test]
fn swap_without_seat_reports_a_kept() {
    let a = course(vec![("JXBID", s("A")), ("KCM", s("甲")), ("SFYX", s("1"))]);
    let b = course(vec![("JXBID", s("B")), ("KCM", s("乙"))]);
    let mut task = SwapTask::new(a, b, 1, 0);
    task.step(false, SwapAnswer::Resumed);
    task.step(false, SwapAnswer::Listed(Err(Failure::msg("HTTP 502"))));
    let step = task.step(false, SwapAnswer::Resumed);
    match step.action {
        SwapAction::Finished(WorkerEvent::RobFinished { successful, pending, .. }) => {
            assert!(successful.is_empty());
            assert_eq!(pending, vec!["乙（未出现空位，未退 甲）".to_owned()]);
        }
        _ => panic!("expected the report of an unswapped pair"),
    }
}

#[test]
fn a_task_logs_in_again_at_most_once() {
    let mut allowance = ReloginAllowance::new(true);
    assert_eq!(allowance.on_expired(), ReloginDecision::LoginThenRetry);
    assert_eq!(allowance.on_expired(), ReloginDecision::Retry);
    assert_eq!(allowance.on_expired(), ReloginDecision::Retry);
    let mut off = ReloginAllowance::new(false);
    assert_eq!(off.on_expired(), ReloginDecision::GiveUp);
}

#[test]
fn keep_alive_reports_and_stops_only_on_vpn_demand() {
    assert!(matches!(keepalive_report(Ok(())), KeepAlive::Report(s) if s == "保活成功"));
    assert!(matches!(keepalive_report(Err(Failure::msg("HTTP 500"))), KeepAlive::Report(s) if s == "保活失败：HTTP 500"));
    assert!(matches!(keepalive_report(Err(VpnRequired.into_failure())), KeepAlive::Stop(_)));
}
