//! What the window shows and allows: its reaction to each report of a
//! background task, and the checks made before a task is started.
use vstd::prelude::*;
use crate::model::{Batch, BatchView};
use crate::rob::{display_names_spec, display_names, strings_view, WorkerEvent};
use crate::text::{append_str, decimal_of_u128, int_decimal, owned, str_eq, trim_seq, trim_str, opt_view};

verus! {

/// The pages of the control panel.
#[derive(Clone, Copy, Debug, PartialEq, Eq, Structural)]
pub enum ControlPage {
    Account,
    Courses,
    Task,
    Advanced,
}

/// The state of the window that the reports change. The login session,
/// the batches and the courses themselves are held beside it; `logged_in`
/// and `has_batch` say whether there are any.
#[derive(Debug)]
pub struct Screen {
    pub status: String,
    pub busy: bool,
    pub rob_running: bool,
    pub vpn_required: bool,
    pub stopped: bool,
    pub paused: bool,
    pub logged_in: bool,
    pub batch_dialog: bool,
    pub has_batch: bool,
    pub control_page: ControlPage,
    pub result_dialog: Option<String>,
}

pub open spec fn vpn_status() -> Seq<char> {
    "需要连接校园网或完成校园 VPN 验证"@
}

pub open spec fn authorized_status() -> Seq<char> {
    "VPN 授权成功：桌面程序已通过验证码接口检测，请重新登录并抓取课程"@
}

pub open spec fn network_ready_status() -> Seq<char> {
    "网络检测通过：本程序已能访问选课验证码接口，请点击登录"@
}

pub open spec fn submit_failed_status() -> Seq<char> {
    "提交异常，任务已停止；请核对实际选课结果"@
}

pub open spec fn rob_done_status() -> Seq<char> {
    "抢课任务结束"@
}

pub open spec fn vpn_lost_note() -> Seq<char> {
    "VPN 验证失效，任务已停止；重新连接后请核对选课状态。\n"@
}

/// The result window of a task that stopped after an uncertain submission.
pub open spec fn failure_dialog(reason: Seq<char>, successful: Seq<Seq<char>>, pending: Seq<Seq<char>>) -> Seq<char> {
    reason + "\n\n此前报告成功："@ + display_names_spec(successful) + "\n未完成或结果待核对："@ + display_names_spec(pending)
}

/// The result window of a task that ended otherwise.
pub open spec fn result_dialog_text(vpn_required: bool, successful: Seq<Seq<char>>, pending: Seq<Seq<char>>) -> Seq<char> {
    (if vpn_required { vpn_lost_note() } else { Seq::empty() }) + "成功："@ + display_names_spec(successful)
        + "\n未成功："@ + display_names_spec(pending)
}

/// The status line after the course list arrived.
pub open spec fn courses_status(code: Seq<char>, class_type: Seq<char>, count: nat, total: nat) -> Seq<char> {
    "完成：轮次 "@ + code + "，类型 "@ + class_type + "，抓取 "@ + int_decimal(count as int) + "/"@ + int_decimal(total as int)
}

impl Screen {
    /// The window as it opens.
    pub fn new() -> (r: Screen)
        ensures
            r.status@ == "请输入学号和密码"@,
            !r.busy && !r.rob_running && !r.vpn_required && !r.stopped && !r.paused,
            !r.logged_in && !r.batch_dialog && !r.has_batch,
            r.control_page == ControlPage::Account,
            r.result_dialog is None,
    {
        Screen {
            status: owned("请输入学号和密码"),
            busy: false,
            rob_running: false,
            vpn_required: false,
            stopped: false,
            paused: false,
            logged_in: false,
            batch_dialog: false,
            has_batch: false,
            control_page: ControlPage::Account,
            result_dialog: None,
        }
    }

    /// The window's reaction to a report.
    ///
    /// A VPN demand stops and un-pauses any task, drops the login and sends
    /// the user to the account page; while it stands, status reports do not
    /// replace its status line.
    pub fn apply(&mut self, event: WorkerEvent)
        ensures
            match event {
                WorkerEvent::VpnAuthorized => {
                    &&& !final(self).busy && !final(self).vpn_required && !final(self).logged_in
                    &&& !final(self).batch_dialog && !final(self).has_batch
                    &&& final(self).status@ == authorized_status()
                    &&& final(self).rob_running == old(self).rob_running && final(self).stopped == old(self).stopped
                    &&& final(self).paused == old(self).paused && final(self).control_page == old(self).control_page
                    &&& final(self).result_dialog == old(self).result_dialog
                },
                WorkerEvent::NetworkReady => {
                    &&& !final(self).busy && !final(self).vpn_required
                    &&& final(self).status@ == network_ready_status()
                    &&& final(self).rob_running == old(self).rob_running && final(self).stopped == old(self).stopped
                    &&& final(self).paused == old(self).paused && final(self).control_page == old(self).control_page
                    &&& final(self).logged_in == old(self).logged_in && final(self).batch_dialog == old(self).batch_dialog
                    &&& final(self).has_batch == old(self).has_batch && final(self).result_dialog == old(self).result_dialog
                },
                WorkerEvent::VpnRequired { task_finished, detail } => {
                    &&& !final(self).busy && final(self).stopped && !final(self).paused && final(self).vpn_required
                    &&& final(self).control_page == ControlPage::Account
                    &&& !final(self).logged_in && !final(self).batch_dialog
                    &&& final(self).rob_running == (old(self).rob_running && !task_finished)
                    &&& opt_view(final(self).result_dialog) == (match detail {
                        Some(d) => Some(d@),
                        None => opt_view(old(self).result_dialog),
                    })
                    &&& final(self).status@ == vpn_status()
                    &&& final(self).has_batch == old(self).has_batch
                },
                WorkerEvent::Status(s) => {
                    &&& final(self).status@ == (if old(self).vpn_required { old(self).status@ } else { s@ })
                    &&& final(self).busy == old(self).busy && final(self).rob_running == old(self).rob_running
                    &&& final(self).vpn_required == old(self).vpn_required && final(self).stopped == old(self).stopped
                    &&& final(self).paused == old(self).paused && final(self).logged_in == old(self).logged_in
                    &&& final(self).batch_dialog == old(self).batch_dialog && final(self).has_batch == old(self).has_batch
                    &&& final(self).control_page == old(self).control_page && final(self).result_dialog == old(self).result_dialog
                },
                WorkerEvent::RobFinished { successful, pending, failure } => {
                    &&& !final(self).rob_running
                    &&& final(self).busy == old(self).busy && final(self).vpn_required == old(self).vpn_required
                    &&& final(self).stopped == old(self).stopped && final(self).paused == old(self).paused
                    &&& final(self).logged_in == old(self).logged_in && final(self).batch_dialog == old(self).batch_dialog
                    &&& final(self).has_batch == old(self).has_batch && final(self).control_page == old(self).control_page
                    &&& match failure {
                        Some(reason) => {
                            &&& final(self).status@ == submit_failed_status()
                            &&& opt_view(final(self).result_dialog) == Some(failure_dialog(reason@, strings_view(successful@), strings_view(pending@)))
                        },
                        None => {
                            &&& final(self).status@ == (if old(self).vpn_required { old(self).status@ } else { rob_done_status() })
                            &&& opt_view(final(self).result_dialog) == Some(result_dialog_text(old(self).vpn_required, strings_view(successful@), strings_view(pending@)))
                        },
                    }
                },
                WorkerEvent::Error(e) => {
                    &&& !final(self).busy && !final(self).rob_running
                    &&& final(self).status@ == (if old(self).vpn_required { old(self).status@ } else { "执行失败"@ })
                    &&& opt_view(final(self).result_dialog) == Some(e@)
                    &&& final(self).vpn_required == old(self).vpn_required && final(self).stopped == old(self).stopped
                    &&& final(self).paused == old(self).paused && final(self).logged_in == old(self).logged_in
                    &&& final(self).batch_dialog == old(self).batch_dialog && final(self).has_batch == old(self).has_batch
                    &&& final(self).control_page == old(self).control_page
                },
            },
    {
        match event {
            WorkerEvent::VpnAuthorized => {
                self.busy = false;
                self.vpn_required = false;
                self.logged_in = false;
                self.batch_dialog = false;
                self.has_batch = false;
                self.status = owned("VPN 授权成功：桌面程序已通过验证码接口检测，请重新登录并抓取课程");
            },
            WorkerEvent::NetworkReady => {
                self.busy = false;
                self.vpn_required = false;
                self.status = owned("网络检测通过：本程序已能访问选课验证码接口，请点击登录");
            },
            WorkerEvent::VpnRequired { task_finished, detail } => {
                self.busy = false;
                self.stopped = true;
                self.paused = false;
                self.vpn_required = true;
                self.control_page = ControlPage::Account;
                self.logged_in = false;
                self.batch_dialog = false;
                if task_finished {
                    self.rob_running = false;
                }
                if let Some(d) = detail {
                    self.result_dialog = Some(d);
                }
                self.status = owned("需要连接校园网或完成校园 VPN 验证");
            },
            WorkerEvent::Status(s) => {
                if !self.vpn_required {
                    self.status = s;
                }
            },
            WorkerEvent::RobFinished { successful, pending, failure } => {
                self.rob_running = false;
                let done = display_names(&successful);
                let left = display_names(&pending);
                match failure {
                    Some(reason) => {
                        self.status = owned("提交异常，任务已停止；请核对实际选课结果");
                        let mut text = reason;
                        append_str(&mut text, "\n\n此前报告成功：");
                        append_str(&mut text, done.as_str());
                        append_str(&mut text, "\n未完成或结果待核对：");
                        append_str(&mut text, left.as_str());
                        self.result_dialog = Some(text);
                    },
                    None => {
                        if !self.vpn_required {
                            self.status = owned("抢课任务结束");
                        }
                        let mut text = if self.vpn_required {
                            owned("VPN 验证失效，任务已停止；重新连接后请核对选课状态。\n")
                        } else {
                            String::new()
                        };
                        append_str(&mut text, "成功：");
                        append_str(&mut text, done.as_str());
                        append_str(&mut text, "\n未成功：");
                        append_str(&mut text, left.as_str());
                        self.result_dialog = Some(text);
                    },
                }
            },
            WorkerEvent::Error(e) => {
                self.busy = false;
                self.rob_running = false;
                if !self.vpn_required {
                    self.status = owned("执行失败");
                }
                self.result_dialog = Some(e);
            },
        }
    }

    /// After a login: the batch dialog opens.
    pub fn on_login_ready(&mut self)
        ensures
            !final(self).busy && final(self).logged_in && !final(self).vpn_required && final(self).batch_dialog,
            final(self).status@ == "登录成功，请选择课程轮次"@,
            final(self).rob_running == old(self).rob_running && final(self).stopped == old(self).stopped,
            final(self).paused == old(self).paused && final(self).has_batch == old(self).has_batch,
            final(self).control_page == old(self).control_page && final(self).result_dialog == old(self).result_dialog,
    {
        self.busy = false;
        self.logged_in = true;
        self.vpn_required = false;
        self.batch_dialog = true;
        self.status = owned("登录成功，请选择课程轮次");
    }

    /// After the login was restored during a task.
    pub fn on_session_refreshed(&mut self)
        ensures
            final(self).logged_in && !final(self).vpn_required,
            final(self).status@ == "自动重新登录成功，任务继续运行"@,
            final(self).busy == old(self).busy && final(self).rob_running == old(self).rob_running,
            final(self).stopped == old(self).stopped && final(self).paused == old(self).paused,
            final(self).batch_dialog == old(self).batch_dialog && final(self).has_batch == old(self).has_batch,
            final(self).control_page == old(self).control_page && final(self).result_dialog == old(self).result_dialog,
    {
        self.logged_in = true;
        self.vpn_required = false;
        self.status = owned("自动重新登录成功，任务继续运行");
    }

    /// After the course list of batch `code` arrived: `count` teaching
    /// classes of the `total` rows announced.
    pub fn on_courses(&mut self, code: &str, class_type: &str, count: usize, total: usize)
        ensures
            !final(self).busy && final(self).logged_in && final(self).has_batch,
            final(self).control_page == ControlPage::Courses,
            final(self).status@ == courses_status(code@, class_type@, count as nat, total as nat),
            final(self).rob_running == old(self).rob_running && final(self).stopped == old(self).stopped,
            final(self).paused == old(self).paused && final(self).vpn_required == old(self).vpn_required,
            final(self).batch_dialog == old(self).batch_dialog && final(self).result_dialog == old(self).result_dialog,
    {
        self.busy = false;
        self.logged_in = true;
        self.has_batch = true;
        self.control_page = ControlPage::Courses;
        let mut s = owned("完成：轮次 ");
        append_str(&mut s, code);
        append_str(&mut s, "，类型 ");
        append_str(&mut s, class_type);
        append_str(&mut s, "，抓取 ");
        let n = decimal_of_u128(count as u128);
        append_str(&mut s, n.as_str());
        append_str(&mut s, "/");
        let t = decimal_of_u128(total as u128);
        append_str(&mut s, t.as_str());
        self.status = s;
    }
}

// ---------------------------------------------------------------------------
// Checks before a task starts
// ---------------------------------------------------------------------------

/// Whether to start a task, refuse it with a message, or do nothing.
#[derive(Debug)]
pub enum Launch {
    Start,
    Refuse(String),
    Ignore,
}

/// The login needs a user name (trimmed) and a password; the trimmed name
/// is what is sent.
pub fn login_check(username: &str, password: &str) -> (r: Result<String, String>)
    ensures
        match r {
            Ok(name) => name@ == trim_seq(username@) && trim_seq(username@).len() > 0 && password@.len() > 0,
            Err(m) => m@ == "请输入学号和密码"@ && (trim_seq(username@).len() == 0 || password@.len() == 0),
        },
{
    let name = trim_str(username);
    if name.as_str().is_empty() || password.is_empty() {
        return Err(owned("请输入学号和密码"));
    }
    Ok(name)
}

/// A batch can be entered only where it is open (`canSelect` is `1`);
/// otherwise the reason it gives, or `该轮次不可选`.
pub open spec fn batch_check_spec(b: BatchView) -> Result<(), Seq<char>> {
    if b.can_select == "1"@ {
        Ok(())
    } else {
        match b.no_select_reason {
            Some(reason) => Err(reason),
            None => Err("该轮次不可选"@),
        }
    }
}

/// Whether the chosen batch may be entered, or the message shown instead.
pub fn batch_check(batch: &Batch) -> (r: Result<(), String>)
    ensures
        match r {
            Ok(()) => batch_check_spec(batch@) == Ok::<(), Seq<char>>(()),
            Err(m) => batch_check_spec(batch@) == Err::<(), Seq<char>>(m@),
        },
{
    if str_eq(batch.can_select.as_str(), "1") {
        return Ok(());
    }
    match &batch.no_select_reason {
        Some(reason) => Err(reason.clone()),
        None => Err(owned("该轮次不可选")),
    }
}

/// The index of the batch selected when the dialog opens: the first open
/// one, else the first.
pub fn first_open_batch(batches: &Vec<Batch>) -> (r: usize)
    ensures
        (exists|k: int| 0 <= k < batches@.len() && #[trigger] batches@[k].can_select@ == "1"@) ==> {
            &&& r < batches@.len()
            &&& batches@[r as int].can_select@ == "1"@
            &&& forall|k: int| 0 <= k < r ==> #[trigger] batches@[k].can_select@ != "1"@
        },
        !(exists|k: int| 0 <= k < batches@.len() && #[trigger] batches@[k].can_select@ == "1"@) ==> r == 0,
{
    let mut i: usize = 0;
    while i < batches.len()
        invariant
            i <= batches.len(),
            forall|k: int| 0 <= k < i ==> #[trigger] batches@[k].can_select@ != "1"@,
        decreases batches.len() - i,
    {
        if str_eq(batches[i].can_select.as_str(), "1") {
            return i;
        }
        i += 1;
    }
    0
}

/// Whether the selection task may start: a login is needed, then a batch
/// (without one nothing happens), then a ticked course unless the
/// any-course mode is on.
pub open spec fn rob_check_spec(logged_in: bool, has_batch: bool, ticked: nat, any: bool) -> Option<Option<Seq<char>>> {
    if !logged_in {
        Some(Some("请先登录并抓取课程"@))
    } else if !has_batch {
        None
    } else if ticked == 0 && !any {
        Some(Some("请先勾选至少一门课程"@))
    } else {
        Some(None)
    }
}

/// Whether the selection task may start.
pub fn rob_check(logged_in: bool, has_batch: bool, ticked: usize, any: bool) -> (r: Launch)
    ensures
        match rob_check_spec(logged_in, has_batch, ticked as nat, any) {
            None => r is Ignore,
            Some(None) => r is Start,
            Some(Some(m)) => r matches Launch::Refuse(t) && t@ == m,
        },
{
    if !logged_in {
        Launch::Refuse(owned("请先登录并抓取课程"))
    } else if !has_batch {
        Launch::Ignore
    } else if ticked == 0 && !any {
        Launch::Refuse(owned("请先勾选至少一门课程"))
    } else {
        Launch::Start
    }
}


// ---------------------------------------------------------------------------
// Texts of the window
// ---------------------------------------------------------------------------

/// The state of a batch in the batch dialog.
pub open spec fn batch_state_spec(b: BatchView) -> Seq<char> {
    if b.can_select == "1"@ {
        "可选"@
    } else {
        "不可选："@ + match b.no_select_reason {
            Some(r) => r,
            None => "未知原因"@,
        }
    }
}

/// A line of the batch dialog.
pub open spec fn batch_label_spec(b: BatchView) -> Seq<char> {
    "["@ + b.group + "] "@ + b.name + " | "@ + b.school_term_name + " | "@ + b.begin_time + " ~ "@ + b.end_time
        + " | "@ + batch_state_spec(b)
}

/// The line that shows `batch` in the batch dialog.
pub fn batch_label(batch: &Batch) -> (r: String)
    ensures
        r@ == batch_label_spec(batch@),
{
    let mut s = owned("[");
    append_str(&mut s, batch.group.as_str());
    append_str(&mut s, "] ");
    append_str(&mut s, batch.name.as_str());
    append_str(&mut s, " | ");
    append_str(&mut s, batch.school_term_name.as_str());
    append_str(&mut s, " | ");
    append_str(&mut s, batch.begin_time.as_str());
    append_str(&mut s, " ~ ");
    append_str(&mut s, batch.end_time.as_str());
    append_str(&mut s, " | ");
    let state = if str_eq(batch.can_select.as_str(), "1") {
        owned("可选")
    } else {
        let mut t = owned("不可选：");
        match &batch.no_select_reason {
            Some(r) => append_str(&mut t, r.as_str()),
            None => append_str(&mut t, "未知原因"),
        }
        t
    };
    append_str(&mut s, state.as_str());
    s
}

/// The hint on the task page.
pub open spec fn task_hint_spec(any: bool, ticked: nat) -> Seq<char> {
    if any {
        "任意课程模式：无需勾选目标，将按查询顺序尝试，并在第一门选课成功后停止"@
    } else if ticked == 0 {
        "尚未勾选目标课程，请先到“课程筛选”页选择至少一门课程"@
    } else {
        "已勾选 "@ + int_decimal(ticked as int) + " 门目标课程"@
    }
}

/// The hint that the task page shows above its buttons.
pub fn task_hint(any: bool, ticked: usize) -> (r: String)
    ensures
        r@ == task_hint_spec(any, ticked as nat),
{
    if any {
        owned("任意课程模式：无需勾选目标，将按查询顺序尝试，并在第一门选课成功后停止")
    } else if ticked == 0 {
        owned("尚未勾选目标课程，请先到“课程筛选”页选择至少一门课程")
    } else {
        let mut s = owned("已勾选 ");
        let n = decimal_of_u128(ticked as u128);
        append_str(&mut s, n.as_str());
        append_str(&mut s, " 门目标课程");
        s
    }
}

/// Whether the button that starts the selection task is enabled: nothing
/// else is running, and there is something to try.
pub fn can_start_rob(busy: bool, rob_running: bool, any: bool, ticked: usize) -> (r: bool)
    ensures
        r == (!busy && !rob_running && (any || ticked > 0)),
{
    !busy && !rob_running && (any || ticked > 0)
}

} // verus!
