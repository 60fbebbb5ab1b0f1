use xk_rust::model::Batch;
use xk_rust::rob::WorkerEvent;
use xk_rust::schedule::{schedule_outcome, schedule_start};
use xk_rust::screen::{
    batch_check, batch_label, can_start_rob, first_open_batch, login_check, rob_check, task_hint, ControlPage,
    Launch, Screen,
};

fn batch(code: &str, can_select: &str, reason: Option<&str>) -> Batch {
    Batch {
        code: code.to_owned(),
        name: format!("轮次{code}"),
        school_term_name: "2025春".to_owned(),
        begin_time: "08:00".to_owned(),
        end_time: "20:00".to_owned(),
        can_select: can_select.to_owned(),
        no_select_reason: reason.map(|r| r.to_owned()),
        group: "普通轮次".to_owned(),
    }
}

#[test]
fn vpn_demand_stops_tasks_and_keeps_its_status() {
    let mut screen = Screen::new();
    screen.rob_running = true;
    screen.paused = true;
    screen.logged_in = true;
    screen.apply(WorkerEvent::VpnRequired { task_finished: false, detail: Some("细节".to_owned()) });
    assert!(screen.stopped && !screen.paused && screen.vpn_required && !screen.logged_in);
    assert!(screen.rob_running);
    assert_eq!(screen.control_page, ControlPage::Account);
    assert_eq!(screen.result_dialog.as_deref(), Some("细节"));
    screen.apply(WorkerEvent::Status("保活成功".to_owned()));
    assert_eq!(screen.status, "需要连接校园网或完成校园 VPN 验证");
    screen.apply(WorkerEvent::RobFinished { successful: vec![], pending: vec!["乙".to_owned()], failure: None });
    assert!(!screen.rob_running);
    assert_eq!(
        screen.result_dialog.as_deref(),
        Some("VPN 验证失效，任务已停止；重新连接后请核对选课状态。\n成功：无\n未成功：乙")
    );
    screen.apply(WorkerEvent::VpnAuthorized);
    assert!(!screen.vpn_required);
    screen.apply(WorkerEvent::Status("保活成功".to_owned()));
    assert_eq!(screen.status, "保活成功");
}

#[test]
fn failed_submission_report_lists_both_sides() {
    let mut screen = Screen::new();
    screen.apply(WorkerEvent::RobFinished {
        successful: vec!["甲".to_owned()],
        pending: vec!["乙".to_owned(), "丙".to_owned()],
        failure: Some("原因".to_owned()),
    });
    assert_eq!(screen.status, "提交异常，任务已停止；请核对实际选课结果");
    assert_eq!(
        screen.result_dialog.as_deref(),
        Some("原因\n\n此前报告成功：甲\n未完成或结果待核对：乙、丙")
    );
}

#[test]
fn errors_and_readiness() {
    let mut screen = Screen::new();
    screen.busy = true;
    screen.apply(WorkerEvent::NetworkReady);
    assert!(!screen.busy);
    assert_eq!(screen.status, "网络检测通过：本程序已能访问选课验证码接口，请点击登录");
    screen.apply(WorkerEvent::Error("HTTP 500".to_owned()));
    assert_eq!(screen.status, "执行失败");
    assert_eq!(screen.result_dialog.as_deref(), Some("HTTP 500"));
    screen.on_courses("B1", "TJKC", 12, 10);
    assert_eq!(screen.status, "完成：轮次 B1，类型 TJKC，抓取 12/10");
    assert_eq!(screen.control_page, ControlPage::Courses);
}

#[test]
fn launch_checks() {
    assert_eq!(login_check("  2023 ", "pw").ok().unwrap(), "2023");
    assert_eq!(login_check("   ", "pw").err().unwrap(), "请输入学号和密码");
    assert_eq!(login_check("2023", "").err().unwrap(), "请输入学号和密码");
    assert!(matches!(rob_check(false, true, 1, false), Launch::Refuse(m) if m == "请先登录并抓取课程"));
    assert!(matches!(rob_check(true, false, 1, false), Launch::Ignore));
    assert!(matches!(rob_check(true, true, 0, false), Launch::Refuse(m) if m == "请先勾选至少一门课程"));
    assert!(matches!(rob_check(true, true, 0, true), Launch::Start));
    assert!(can_start_rob(false, false, false, 1));
    assert!(!can_start_rob(true, false, true, 1));
    assert!(!can_start_rob(false, false, false, 0));
}

#[test]
fn batches_open_or_explain_why_not() {
    assert!(batch_check(&batch("1", "1", None)).is_ok());
    assert_eq!(batch_check(&batch("1", "0", Some("未开放"))).err().unwrap(), "未开放");
    assert_eq!(batch_check(&batch("1", "0", None)).err().unwrap(), "该轮次不可选");
    let list = vec![batch("1", "0", None), batch("2", "1", None), batch("3", "1", None)];
    assert_eq!(first_open_batch(&list), 1);
    assert_eq!(first_open_batch(&vec![batch("1", "0", None)]), 0);
    assert_eq!(
        batch_label(&batch("7", "0", None)),
        "[普通轮次] 轮次7 | 2025春 | 08:00 ~ 20:00 | 不可选：未知原因"
    );
}

#[test]
fn task_page_hint() {
    assert_eq!(task_hint(false, 0), "尚未勾选目标课程，请先到“课程筛选”页选择至少一门课程");
    assert_eq!(task_hint(false, 3), "已勾选 3 门目标课程");
    assert!(task_hint(true, 0).starts_with("任意课程模式"));
}

#[test]
fn scheduled_start_is_a_clock_time() {
    assert_eq!(schedule_start("  ").ok().unwrap(), None);
    assert_eq!(schedule_start(" 08:30:05 ").ok().unwrap(), Some((30_605, 0)));
    assert_eq!(schedule_start("8点").err().unwrap(), "定时时间格式应为 HH:MM:SS");
    assert_eq!(schedule_outcome(None).err().unwrap(), "定时时间格式应为 HH:MM:SS");
    assert_eq!(schedule_outcome(Some((1, 2))).ok().unwrap(), (1, 2));
}
