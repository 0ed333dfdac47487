use biliticket::push::{PushChannel, PushConfig};
use biliticket::api::QrCodeLoginStatus;
use biliticket::taskmanager::{push_plan, PushType};
use biliticket::taskmanager::{
    buyer_info_task_result, grab_failed, grab_succeeded, push_task_result, qr_login_task_result,
    ticket_info_task_result, TaskResult,
};
use biliticket::taskmanager::{
    GetBuyerInfoRequest, GetTicketInfoRequest, GrabTicketRequest, LoginSmsRequest, PushRequest, TaskManagerImpl,
    TaskMessage, TaskRequest, TaskStatus,
};

fn sms() -> TaskRequest {
    TaskRequest::LoginSmsRequest(LoginSmsRequest { phone: "123".to_string() })
}

#[test]
fn submitted_tasks_are_tracked() {
    let mut tm = TaskManagerImpl::new();
    let id = tm.submit_task(sms()).unwrap();
    assert_eq!(id.len(), 36);
    assert_eq!(tm.get_task_status(&id), Some(TaskStatus::Pending));
    let info = TaskRequest::GetTicketInfoRequest(GetTicketInfoRequest {
        task_id: "x".to_string(),
        uid: 1,
        project_id: "2".to_string(),
        referer_link: String::new(),
    });
    let id2 = tm.submit_task(info).unwrap();
    assert_eq!(tm.get_task_status(&id2), Some(TaskStatus::Running));
    assert_eq!(tm.take_messages().len(), 2);
}

#[test]
fn grab_tasks_are_not_tracked() {
    let mut tm = TaskManagerImpl::new();
    let grab = TaskRequest::GrabTicketRequest(GrabTicketRequest {
        task_id: "g".to_string(),
        uid: 1,
        project_id: "2".to_string(),
        screen_id: "3".to_string(),
        ticket_id: "4".to_string(),
        count: 1,
        grab_mode: 0,
        is_hot: false,
    });
    let id = tm.submit_task(grab).unwrap();
    assert_eq!(tm.get_task_status(&id), None);
    assert_eq!(tm.cancel_task(&id), Err("任务不存在".to_string()));
}

#[test]
fn cancel_and_shutdown() {
    let mut tm = TaskManagerImpl::new();
    assert_eq!(tm.cancel_task("nope"), Err("任务不存在".to_string()));
    let id = tm.submit_task(sms()).unwrap();
    assert_eq!(tm.cancel_task(&id), Ok(()));
    let msgs = tm.take_messages();
    assert!(matches!(&msgs[1], TaskMessage::CancelTask(s) if *s == id));
    tm.shutdown();
    let m = tm.take_messages();
    assert!(matches!(m.as_slice(), [TaskMessage::Shutdown]));
    assert_eq!(tm.submit_task(sms()), Err("无法提交任务: channel closed".to_string()));
    assert_eq!(tm.cancel_task(&id), Err("无法取消任务: channel closed".to_string()));
    tm.shutdown();
    assert!(tm.take_messages().is_empty());
}

#[test]
fn push_plans() {
    assert_eq!(push_plan(PushType::All), None);
    assert_eq!(push_plan(PushType::Channel(PushChannel::Bark)), Some((false, "未实现的推送类型".to_string())));
}

#[test]
fn task_ids_are_uuid_v4_text() {
    let mut tm = TaskManagerImpl::new();
    let id = tm.submit_task(sms()).unwrap();
    let b: Vec<char> = id.chars().collect();
    assert_eq!(b.len(), 36);
    assert_eq!((b[8], b[13], b[18], b[23], b[14]), ('-', '-', '-', '-', '4'));
    assert!("89ab".contains(b[19]));
}

type Outcome = TaskResult<&'static str, Vec<u8>, u32>;

#[test]
fn qr_login_result_carries_cookie_or_error() {
    let r: Outcome = qr_login_task_result("t1".to_string(), QrCodeLoginStatus::Success("SESSDATA=1".to_string()));
    match r {
        TaskResult::QrCodeLoginResult(x) => {
            assert_eq!(x.task_id, "t1");
            assert_eq!(x.cookie, Some("SESSDATA=1".to_string()));
            assert_eq!(x.error, None);
            assert!(matches!(x.status, QrCodeLoginStatus::Success(_)));
        }
        _ => panic!("wrong result kind"),
    }
    let r: Outcome = qr_login_task_result("t2".to_string(), QrCodeLoginStatus::Failed("二维码已失效".to_string()));
    match r {
        TaskResult::QrCodeLoginResult(x) => {
            assert_eq!(x.cookie, None);
            assert_eq!(x.error, Some("二维码已失效".to_string()));
        }
        _ => panic!("wrong result kind"),
    }
    let r: Outcome = qr_login_task_result("t3".to_string(), QrCodeLoginStatus::Expired);
    match r {
        TaskResult::QrCodeLoginResult(x) => assert!(x.cookie.is_none() && x.error.is_none()),
        _ => panic!("wrong result kind"),
    }
}

fn push_request(push_type: PushType) -> PushRequest {
    PushRequest {
        title: "t".to_string(),
        message: "m".to_string(),
        jump_url: None,
        push_config: PushConfig::new(),
        push_type,
    }
}

fn info_request() -> GetTicketInfoRequest {
    GetTicketInfoRequest { task_id: "t".to_string(), uid: 7, project_id: "1".to_string(), referer_link: String::new() }
}

fn grab_request() -> GrabTicketRequest {
    GrabTicketRequest {
        task_id: "g".to_string(),
        uid: 5,
        project_id: "1".to_string(),
        screen_id: "2".to_string(),
        ticket_id: "3".to_string(),
        count: 1,
        grab_mode: 2,
        is_hot: false,
    }
}

#[test]
fn push_result_keeps_push_type() {
    let r: Outcome = push_task_result("p".to_string(), &push_request(PushType::All), Some((true, "全部推送成功".to_string())));
    match r {
        TaskResult::PushResult(x) => {
            assert_eq!(x.task_id, "p");
            assert!(x.success);
            assert_eq!(x.message, "全部推送成功");
            assert_eq!(x.push_type, PushType::All);
        }
        _ => panic!("wrong result kind"),
    }
    let single = PushType::Channel(PushChannel::Gotify);
    assert!(push_plan(single).is_some());
    let r: Outcome = push_task_result("q".to_string(), &push_request(single), None);
    match r {
        TaskResult::PushResult(x) => {
            assert!(!x.success);
            assert_eq!(x.message, "未实现的推送类型");
            assert_eq!(x.push_type, single);
        }
        _ => panic!("wrong result kind"),
    }
}

#[test]
fn ticket_info_result_message() {
    let r: Outcome = ticket_info_task_result(&info_request(), Ok(("project", 0)));
    match r {
        TaskResult::GetTicketInfoResult(x) => {
            assert_eq!((x.uid, x.success, x.ticket_info), (7, true, Some("project")));
            assert_eq!(x.message, "项目0请求成功");
        }
        _ => panic!("wrong result kind"),
    }
    let r: Outcome = ticket_info_task_result(&info_request(), Ok(("project", -12)));
    match r {
        TaskResult::GetTicketInfoResult(x) => assert_eq!(x.message, "项目-12请求成功"),
        _ => panic!("wrong result kind"),
    }
    let r: Outcome = ticket_info_task_result(&info_request(), Err("请求失败".to_string()));
    match r {
        TaskResult::GetTicketInfoResult(x) => {
            assert!(!x.success && x.ticket_info.is_none());
            assert_eq!(x.message, "请求失败");
        }
        _ => panic!("wrong result kind"),
    }
}

#[test]
fn buyer_result_and_cache_write() {
    let (r, save): (Outcome, bool) = buyer_info_task_result(&GetBuyerInfoRequest { task_id: "b".to_string(), uid: 3 }, Ok((vec![1, 2], 2)), None);
    assert!(save);
    match r {
        TaskResult::GetBuyerInfoResult(x) => {
            assert_eq!((x.uid, x.success), (3, true));
            assert_eq!(x.buyer_info, Some(vec![1, 2]));
            assert_eq!(x.message, "购票人信息请求成功");
        }
        _ => panic!("wrong result kind"),
    }
    let (_, save): (Outcome, bool) = buyer_info_task_result(&GetBuyerInfoRequest { task_id: "b".to_string(), uid: 3 }, Ok((vec![], 0)), None);
    assert!(!save);
    let (r, save): (Outcome, bool) =
        buyer_info_task_result(&GetBuyerInfoRequest { task_id: "b".to_string(), uid: 3 }, Err("网络错误".to_string()), Some((vec![9], 1)));
    assert!(!save);
    match r {
        TaskResult::GetBuyerInfoResult(x) => {
            assert!(x.success);
            assert_eq!(x.buyer_info, Some(vec![9]));
            assert_eq!(x.message, "网络获取购票人失败，已从本地缓存读取");
        }
        _ => panic!("wrong result kind"),
    }
    let (r, _): (Outcome, bool) =
        buyer_info_task_result(&GetBuyerInfoRequest { task_id: "b".to_string(), uid: 3 }, Err("网络错误".to_string()), Some((vec![], 0)));
    match r {
        TaskResult::GetBuyerInfoResult(x) => {
            assert!(!x.success && x.buyer_info.is_none());
            assert_eq!(x.message, "网络错误");
        }
        _ => panic!("wrong result kind"),
    }
}

#[test]
fn grab_results() {
    let r: Outcome = grab_failed(&grab_request(), "获取token失败，错误代码: 100001，错误信息：busy".to_string());
    match r {
        TaskResult::GrabTicketResult(x) => {
            assert_eq!((x.uid, x.success), (5, false));
            assert_eq!(x.message, "获取token失败，错误代码: 100001，错误信息：busy");
            assert!(x.order_id.is_none() && x.pay_token.is_none() && x.confirm_result.is_none() && x.pay_url.is_none());
        }
        _ => panic!("wrong result kind"),
    }
    let r: Outcome = grab_succeeded(&grab_request(), 1234567890123, "tok".to_string(), 42, "https://pay".to_string());
    match r {
        TaskResult::GrabTicketResult(x) => {
            assert!(x.success);
            assert_eq!(x.message, "抢票成功");
            assert_eq!(x.order_id, Some("1234567890123".to_string()));
            assert_eq!(x.pay_token, Some("tok".to_string()));
            assert_eq!(x.confirm_result, Some(42));
            assert_eq!(x.pay_url, Some("https://pay".to_string()));
        }
        _ => panic!("wrong result kind"),
    }
}
