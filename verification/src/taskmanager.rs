//! The task registry: which background tasks were submitted, their status,
//! and the messages waiting for the worker that runs them.

use vstd::prelude::*;
use crate::push::{PushConfig, PushChannel};
use crate::outside::new_task_id;
use crate::api::{QrCodeLoginStatus, buyer_info_result};
use crate::text::{decimal, decimal_string, push_str};

verus! {

#[derive(PartialEq, Eq, Structural, Clone, Copy, Debug)]
pub enum TaskStatus {
    Pending,
    Running,
}

/// Kind of a notification task: every configured channel, or one channel.
#[derive(PartialEq, Eq, Structural, Clone, Copy, Debug)]
pub enum PushType {
    All,
    Channel(PushChannel),
}

pub struct PushRequest {
    pub title: String,
    pub message: String,
    pub jump_url: Option<String>,
    pub push_config: PushConfig,
    pub push_type: PushType,
}

pub struct QrCodeLoginRequest {
    pub qrcode_key: String,
    pub qrcode_url: String,
    pub user_agent: Option<String>,
}

pub struct LoginSmsRequest {
    pub phone: String,
}

pub struct SubmitLoginSmsRequest {
    pub phone: String,
    pub code: String,
    pub captcha_key: String,
}

pub struct GetAllorderRequest {
    pub task_id: String,
    pub account_id: String,
    pub cookies: String,
}

pub struct GetTicketInfoRequest {
    pub task_id: String,
    pub uid: i64,
    pub project_id: String,
    pub referer_link: String,
}

pub struct GetBuyerInfoRequest {
    pub task_id: String,
    pub uid: i64,
}

pub struct GrabTicketRequest {
    pub task_id: String,
    pub uid: i64,
    pub project_id: String,
    pub screen_id: String,
    pub ticket_id: String,
    pub count: i16,
    pub grab_mode: u8,
    pub is_hot: bool,
}

pub enum TaskRequest {
    QrCodeLoginRequest(QrCodeLoginRequest),
    LoginSmsRequest(LoginSmsRequest),
    PushRequest(PushRequest),
    SubmitLoginSmsRequest(SubmitLoginSmsRequest),
    GetAllorderRequest(GetAllorderRequest),
    GetTicketInfoRequest(GetTicketInfoRequest),
    GetBuyerInfoRequest(GetBuyerInfoRequest),
    GrabTicketRequest(GrabTicketRequest),
}

#[derive(PartialEq, Eq, Structural, Clone, Copy, Debug)]
pub enum TaskKind {
    QrCodeLogin,
    LoginSms,
    Push,
    SubmitLoginSms,
    GetAllorder,
    GetTicketInfo,
    GetBuyerInfo,
    GrabTicket,
}

pub open spec fn request_kind(r: TaskRequest) -> TaskKind {
    match r {
        TaskRequest::QrCodeLoginRequest(_) => TaskKind::QrCodeLogin,
        TaskRequest::LoginSmsRequest(_) => TaskKind::LoginSms,
        TaskRequest::PushRequest(_) => TaskKind::Push,
        TaskRequest::SubmitLoginSmsRequest(_) => TaskKind::SubmitLoginSms,
        TaskRequest::GetAllorderRequest(_) => TaskKind::GetAllorder,
        TaskRequest::GetTicketInfoRequest(_) => TaskKind::GetTicketInfo,
        TaskRequest::GetBuyerInfoRequest(_) => TaskKind::GetBuyerInfo,
        TaskRequest::GrabTicketRequest(_) => TaskKind::GrabTicket,
    }
}

/// Status a task of each kind is registered with; ticket grabs are not registered.
pub open spec fn initial_status(k: TaskKind) -> Option<TaskStatus> {
    match k {
        TaskKind::GrabTicket => None,
        TaskKind::GetTicketInfo => Some(TaskStatus::Running),
        _ => Some(TaskStatus::Pending),
    }
}

/// A registered task.
#[derive(PartialEq, Eq, Structural, Clone, Copy, Debug)]
pub struct Task {
    pub kind: TaskKind,
    pub status: TaskStatus,
}

/// A message for the worker.
pub enum TaskMessage {
    SubmitTask(TaskRequest),
    CancelTask(String),
    Shutdown,
}

/// Registered tasks by id, and the messages the worker has yet to take.
pub struct TaskManagerImpl {
    running_tasks: Vec<(String, Task)>,
    outbox: Vec<TaskMessage>,
    closed: bool,
}

pub open spec fn task_lookup(ts: Seq<(Seq<char>, Task)>, id: Seq<char>) -> Option<Task>
    decreases ts.len(),
{
    if ts.len() == 0 {
        None
    } else if ts.last().0 == id {
        Some(ts.last().1)
    } else {
        task_lookup(ts.drop_last(), id)
    }
}

/// `after` is `before` with task `id` of kind `k` registered as its kind requires.
pub open spec fn registers(before: Seq<(Seq<char>, Task)>, after: Seq<(Seq<char>, Task)>, k: TaskKind, id: Seq<char>) -> bool {
    after == match initial_status(k) {
        Some(st) => before.push((id, Task { kind: k, status: st })),
        None => before,
    }
}

/// Every submitted task but a ticket grab is registered under its id: a
/// project-details task as running, any other as pending, and a lookup of
/// the id finds it; a ticket grab leaves the registry as it was.
pub proof fn law_submitted_tasks_are_registered(
    before: Seq<(Seq<char>, Task)>,
    after: Seq<(Seq<char>, Task)>,
    request: TaskRequest,
    id: Seq<char>,
)
    requires
        registers(before, after, request_kind(request), id),
    ensures
        request is GrabTicketRequest ==> after == before,
        !(request is GrabTicketRequest) ==> task_lookup(after, id) == Some(
            Task {
                kind: request_kind(request),
                status: if request is GetTicketInfoRequest {
                    TaskStatus::Running
                } else {
                    TaskStatus::Pending
                },
            },
        ),
        !(request is GrabTicketRequest) ==> after.len() == before.len() + 1,
{
    if !(request is GrabTicketRequest) {
        assert(after.drop_last() == before);
    }
}

/// Registering leaves every other task's lookup as it was.
pub proof fn law_registration_keeps_other_tasks(
    before: Seq<(Seq<char>, Task)>,
    after: Seq<(Seq<char>, Task)>,
    request: TaskRequest,
    id: Seq<char>,
    other: Seq<char>,
)
    requires
        registers(before, after, request_kind(request), id),
        other != id,
    ensures
        task_lookup(after, other) == task_lookup(before, other),
{
    if !(request is GrabTicketRequest) {
        assert(after.drop_last() == before);
    }
}

/// Text of the error a closed worker queue gives.
pub open spec fn closed_text() -> Seq<char> {
    "channel closed"@
}

impl TaskManagerImpl {
    /// Registered tasks, latest registration last.
    pub closed spec fn tasks(&self) -> Seq<(Seq<char>, Task)> {
        self.running_tasks@.map_values(|p: (String, Task)| (p.0@, p.1))
    }

    /// Messages waiting for the worker.
    pub closed spec fn pending(&self) -> Seq<TaskMessage> {
        self.outbox@
    }

    /// Whether the worker is gone.
    pub closed spec fn is_closed(&self) -> bool {
        self.closed
    }

    /// Status of task `id`: that of its latest registration.
    pub open spec fn status_of(&self, id: Seq<char>) -> Option<TaskStatus> {
        match task_lookup(self.tasks(), id) {
            Some(t) => Some(t.status),
            None => None,
        }
    }

    pub fn new() -> (r: Self)
        ensures
            r.tasks() == Seq::<(Seq<char>, Task)>::empty(),
            r.pending() == Seq::<TaskMessage>::empty(),
            !r.is_closed(),
    {
        let r = TaskManagerImpl { running_tasks: Vec::new(), outbox: Vec::new(), closed: false };
        assert(r.tasks() =~= Seq::<(Seq<char>, Task)>::empty());
        r
    }

    fn kind_of(request: &TaskRequest) -> (k: TaskKind)
        ensures
            k == request_kind(*request),
    {
        match request {
            TaskRequest::QrCodeLoginRequest(_) => TaskKind::QrCodeLogin,
            TaskRequest::LoginSmsRequest(_) => TaskKind::LoginSms,
            TaskRequest::PushRequest(_) => TaskKind::Push,
            TaskRequest::SubmitLoginSmsRequest(_) => TaskKind::SubmitLoginSms,
            TaskRequest::GetAllorderRequest(_) => TaskKind::GetAllorder,
            TaskRequest::GetTicketInfoRequest(_) => TaskKind::GetTicketInfo,
            TaskRequest::GetBuyerInfoRequest(_) => TaskKind::GetBuyerInfo,
            TaskRequest::GrabTicketRequest(_) => TaskKind::GrabTicket,
        }
    }

    /// Registers a task under a fresh id and queues it for the worker.
    /// Ticket grabs are queued without registration. Where the worker is
    /// gone the task stays registered and the error is returned.
    pub fn submit_task(&mut self, request: TaskRequest) -> (r: Result<String, String>)
        ensures
            final(self).is_closed() == old(self).is_closed(),
            exists|id: Seq<char>|
                {
                    &&& #[trigger] registers(old(self).tasks(), final(self).tasks(), request_kind(request), id)
                    &&& match r {
                        Ok(s) => !old(self).is_closed() && s@ == id,
                        Err(e) => old(self).is_closed() && e@ == "无法提交任务: "@ + closed_text(),
                    }
                },
            r matches Ok(s) ==> crate::outside::is_uuid_v4_text(s@),
            old(self).is_closed() ==> final(self).pending() == old(self).pending(),
            !old(self).is_closed() ==> final(self).pending() == old(self).pending().push(
                TaskMessage::SubmitTask(request),
            ),
    {
        let task_id = new_task_id();
        let kind = Self::kind_of(&request);
        let ghost t0 = self.tasks();
        match kind {
            TaskKind::GrabTicket => {
                assert(self.tasks() == t0);
            },
            _ => {
                let status = if kind == TaskKind::GetTicketInfo {
                    TaskStatus::Running
                } else {
                    TaskStatus::Pending
                };
                self.running_tasks.push((task_id.clone(), Task { kind, status }));
                assert(self.tasks() =~= t0.push((task_id@, Task { kind, status })));
            },
        }
        assert(registers(t0, self.tasks(), kind, task_id@));
        if self.closed {
            let mut e = String::from_str("无法提交任务: ");
            crate::text::push_str(&mut e, "channel closed");
            return Err(e);
        }
        self.outbox.push(TaskMessage::SubmitTask(request));
        assert(registers(t0, self.tasks(), kind, task_id@));
        Ok(task_id)
    }

    /// Status of a registered task.
    pub fn get_task_status(&self, task_id: &str) -> (r: Option<TaskStatus>)
        ensures
            r == self.status_of(task_id@),
    {
        let key = String::from_str(task_id);
        let n = self.running_tasks.len();
        let mut i = n;
        assert(self.tasks().subrange(0, n as int) =~= self.tasks());
        while i > 0
            invariant
                i <= n == self.running_tasks@.len(),
                key@ == task_id@,
                task_lookup(self.tasks(), task_id@) == task_lookup(self.tasks().subrange(0, i as int), task_id@),
            decreases i,
        {
            let ghost pre = self.tasks().subrange(0, i as int);
            assert(pre.drop_last() =~= self.tasks().subrange(0, i - 1));
            assert(pre.last() == (self.running_tasks@[i - 1].0@, self.running_tasks@[i - 1].1));
            if self.running_tasks[i - 1].0 == key {
                return Some(self.running_tasks[i - 1].1.status);
            }
            i = i - 1;
        }
        None
    }

    /// Asks the worker to cancel a registered task.
    pub fn cancel_task(&mut self, task_id: &str) -> (r: Result<(), String>)
        ensures
            final(self).tasks() == old(self).tasks(),
            final(self).is_closed() == old(self).is_closed(),
            old(self).status_of(task_id@) is None ==> (r matches Err(e) && e@ == "任务不存在"@)
                && final(self).pending() == old(self).pending(),
            old(self).status_of(task_id@) is Some && old(self).is_closed() ==> (r matches Err(e)
                && e@ == "无法取消任务: "@ + closed_text()) && final(self).pending() == old(self).pending(),
            old(self).status_of(task_id@) is Some && !old(self).is_closed() ==> r is Ok
                && final(self).pending().len() == old(self).pending().len() + 1
                && final(self).pending().drop_last() == old(self).pending()
                && (final(self).pending().last() matches TaskMessage::CancelTask(s) && s@ == task_id@),
    {
        if self.get_task_status(task_id).is_none() {
            return Err(String::from_str("任务不存在"));
        }
        if self.closed {
            let mut e = String::from_str("无法取消任务: ");
            crate::text::push_str(&mut e, "channel closed");
            return Err(e);
        }
        self.outbox.push(TaskMessage::CancelTask(String::from_str(task_id)));
        Ok(())
    }

    /// Asks the worker to stop; nothing can be queued afterwards.
    pub fn shutdown(&mut self)
        ensures
            final(self).is_closed(),
            final(self).tasks() == old(self).tasks(),
            !old(self).is_closed() ==> final(self).pending() == old(self).pending().push(TaskMessage::Shutdown),
            old(self).is_closed() ==> final(self).pending() == old(self).pending(),
    {
        if !self.closed {
            self.outbox.push(TaskMessage::Shutdown);
        }
        self.closed = true;
    }

    /// Hands the waiting messages to the worker, oldest first.
    pub fn take_messages(&mut self) -> (r: Vec<TaskMessage>)
        ensures
            r@ == old(self).pending(),
            final(self).pending() == Seq::<TaskMessage>::empty(),
            final(self).tasks() == old(self).tasks(),
            final(self).is_closed() == old(self).is_closed(),
    {
        let mut out: Vec<TaskMessage> = Vec::new();
        std::mem::swap(&mut out, &mut self.outbox);
        out
    }

    /// Records that the worker is gone.
    pub fn mark_closed(&mut self)
        ensures
            final(self).is_closed(),
            final(self).tasks() == old(self).tasks(),
            final(self).pending() == old(self).pending(),
    {
        self.closed = true;
    }
}

/// How a push task is run: `None` to deliver on every channel; for a
/// single channel, which is not offered, the task's result right away.
pub fn push_plan(push_type: PushType) -> (r: Option<(bool, String)>)
    ensures
        push_type is All ==> r is None,
        push_type is Channel ==> (r matches Some((ok, m)) && !ok && m@ == "未实现的推送类型"@),
{
    match push_type {
        PushType::All => None,
        PushType::Channel(_) => Some((false, String::from_str("未实现的推送类型"))),
    }
}

/// The result of a QR-code login task: the poll's status, with the
/// session's cookie where it succeeded and the reason where it failed.
pub struct TaskQrCodeLoginResult {
    pub task_id: String,
    pub status: QrCodeLoginStatus,
    pub cookie: Option<String>,
    pub error: Option<String>,
}

/// The result of a push task, with the kind of push it was.
pub struct PushRequestResult {
    pub task_id: String,
    pub success: bool,
    pub message: String,
    pub push_type: PushType,
}

/// The result of a project-details task; `I` is the parsed project.
pub struct GetTicketInfoResult<I> {
    pub task_id: String,
    pub uid: i64,
    pub ticket_info: Option<I>,
    pub success: bool,
    pub message: String,
}

/// The result of a buyer-list task; `B` is the buyer list reply.
pub struct GetBuyerInfoResult<B> {
    pub task_id: String,
    pub uid: i64,
    pub buyer_info: Option<B>,
    pub success: bool,
    pub message: String,
}

/// The result of a grab task; `C` is the confirmed order.
pub struct GrabTicketResult<C> {
    pub task_id: String,
    pub uid: i64,
    pub success: bool,
    pub message: String,
    pub order_id: Option<String>,
    pub pay_token: Option<String>,
    pub confirm_result: Option<C>,
    pub pay_url: Option<String>,
}

/// What the worker reports of a finished task.
pub enum TaskResult<I, B, C> {
    QrCodeLoginResult(TaskQrCodeLoginResult),
    PushResult(PushRequestResult),
    GetTicketInfoResult(GetTicketInfoResult<I>),
    GetBuyerInfoResult(GetBuyerInfoResult<B>),
    GrabTicketResult(GrabTicketResult<C>),
}

/// The result of QR-code login task `task_id` whose poll ended in `status`.
pub fn qr_login_task_result<I, B, C>(task_id: String, status: QrCodeLoginStatus) -> (r: TaskResult<I, B, C>)
    ensures
        r matches TaskResult::QrCodeLoginResult(x) && x.task_id@ == task_id@ && x.status == status && match status {
            QrCodeLoginStatus::Success(c) => (x.cookie matches Some(k) && k@ == c@) && x.error is None,
            QrCodeLoginStatus::Failed(e) => x.cookie is None && (x.error matches Some(k) && k@ == e@),
            _ => x.cookie is None && x.error is None,
        },
{
    let (cookie, error) = match &status {
        QrCodeLoginStatus::Success(c) => (Some(c.clone()), None),
        QrCodeLoginStatus::Failed(e) => (None, Some(e.clone())),
        _ => (None, None),
    };
    TaskResult::QrCodeLoginResult(TaskQrCodeLoginResult { task_id, status, cookie, error })
}

/// The result of push task `task_id` for `req`: where it asks for every
/// channel, the delivery's outcome `delivered`; for a single channel,
/// which is not offered, a failure saying so, with nothing delivered.
pub fn push_task_result<I, B, C>(task_id: String, req: &PushRequest, delivered: Option<(bool, String)>) -> (r: TaskResult<I, B, C>)
    requires
        req.push_type is All <==> delivered is Some,
    ensures
        r matches TaskResult::PushResult(x) && x.task_id@ == task_id@ && x.push_type == req.push_type && match delivered {
            Some((ok, m)) => x.success == ok && x.message@ == m@,
            None => !x.success && x.message@ == "未实现的推送类型"@,
        },
{
    let (success, message) = match delivered {
        Some(d) => d,
        None => (false, String::from_str("未实现的推送类型")),
    };
    TaskResult::PushResult(PushRequestResult { task_id, success, message, push_type: req.push_type })
}

/// The result of project-details task `req`: the project with its
/// `errno` where the request worked, else its error.
pub fn ticket_info_task_result<I, B, C>(req: &GetTicketInfoRequest, response: Result<(I, i64), String>) -> (r: TaskResult<I, B, C>)
    ensures
        r matches TaskResult::GetTicketInfoResult(x) && x.task_id@ == req.task_id@ && x.uid == req.uid && match response {
            Ok((info, errno)) => x.success && x.ticket_info == Some(info) && x.message@ == "项目"@ + decimal(
                errno as int,
            ) + "请求成功"@,
            Err(e) => !x.success && x.ticket_info is None && x.message@ == e@,
        },
{
    let task_id = req.task_id.clone();
    let uid = req.uid;
    match response {
        Ok((info, errno)) => {
            let mut message = String::from_str("项目");
            let n = decimal_string(errno);
            push_str(&mut message, n.as_str());
            push_str(&mut message, "请求成功");
            TaskResult::GetTicketInfoResult(GetTicketInfoResult {
                task_id,
                uid,
                ticket_info: Some(info),
                success: true,
                message,
            })
        },
        Err(e) => TaskResult::GetTicketInfoResult(GetTicketInfoResult {
            task_id,
            uid,
            ticket_info: None,
            success: false,
            message: e,
        }),
    }
}

/// The result of buyer-list task `req`, and whether the fetched list
/// replaces the account's cache. `online` is the fetched
/// reply with the length of its list; `cached`, asked only where the fetch
/// failed, the cached reply with its length. The result is the fetched
/// list, else a nonempty cached one, else the fetch's error; only a
/// nonempty fetched list is cached.
pub fn buyer_info_task_result<I, B, C>(
    req: &GetBuyerInfoRequest,
    online: Result<(B, usize), String>,
    cached: Option<(B, usize)>,
) -> (r: (TaskResult<I, B, C>, bool))
    ensures
        r.1 == (online matches Ok((v, n)) && n > 0),
        r.0 matches TaskResult::GetBuyerInfoResult(x) && x.task_id@ == req.task_id@ && x.uid == req.uid && match online {
            Ok((v, n)) => x.success && x.buyer_info == Some(v) && x.message@ == "购票人信息请求成功"@,
            Err(e) => if cached matches Some((c, n)) && n > 0 {
                x.success && x.buyer_info == Some(cached.unwrap().0) && x.message@ == "网络获取购票人失败，已从本地缓存读取"@
            } else {
                !x.success && x.buyer_info is None && x.message@ == e@
            },
        },
{
    let (fetched, save) = match online {
        Ok((v, n)) => (Ok(v), n > 0),
        Err(e) => (Err(e), false),
    };
    let (success, buyer_info, message) = buyer_info_result(fetched, cached);
    let task_id = req.task_id.clone();
    (TaskResult::GetBuyerInfoResult(GetBuyerInfoResult { task_id, uid: req.uid, buyer_info, success, message }), save)
}

/// The result of grab task `req` that ends without an order, for the
/// reason `message`.
pub fn grab_failed<I, B, C>(req: &GrabTicketRequest, message: String) -> (r: TaskResult<I, B, C>)
    ensures
        r matches TaskResult::GrabTicketResult(x) && x.task_id@ == req.task_id@ && x.uid == req.uid && !x.success
            && x.message@ == message@ && x.order_id is None && x.pay_token is None && x.confirm_result is None
            && x.pay_url is None,
{
    TaskResult::GrabTicketResult(GrabTicketResult {
        task_id: req.task_id.clone(),
        uid: req.uid,
        success: false,
        message,
        order_id: None,
        pay_token: None,
        confirm_result: None,
        pay_url: None,
    })
}

/// The result of grab task `req` that placed order `order_id`, paid with
/// `pay_token` at `pay_url`, on the confirmation `confirm`.
pub fn grab_succeeded<I, B, C>(
    req: &GrabTicketRequest,
    order_id: i64,
    pay_token: String,
    confirm: C,
    pay_url: String,
) -> (r: TaskResult<I, B, C>)
    ensures
        r matches TaskResult::GrabTicketResult(x) && x.task_id@ == req.task_id@ && x.uid == req.uid && x.success
            && x.message@ == "抢票成功"@ && (x.order_id matches Some(o) && o@ == decimal(order_id as int))
            && (x.pay_token matches Some(t) && t@ == pay_token@) && x.confirm_result == Some(confirm)
            && (x.pay_url matches Some(u) && u@ == pay_url@),
{
    TaskResult::GrabTicketResult(GrabTicketResult {
        task_id: req.task_id.clone(),
        uid: req.uid,
        success: true,
        message: String::from_str("抢票成功"),
        order_id: Some(decimal_string(order_id)),
        pay_token: Some(pay_token),
        confirm_result: Some(confirm),
        pay_url: Some(pay_url),
    })
}

} // verus!
