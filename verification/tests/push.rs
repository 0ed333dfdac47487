use biliticket::api::HttpReply;
use biliticket::json::JsonValue;
use biliticket::push::{
    bark_params, channel_name, channel_outcome, contains_str, push_summary, status_outcome, GotifyConfig, PushChannel, PushConfig,
    SmtpConfig,
};
use biliticket::taskmanager::{PushType, TaskMessage, TaskRequest, TaskManagerImpl};

fn render(v: &JsonValue) -> String {
    match v {
        JsonValue::Null => "null".to_string(),
        JsonValue::Str(s) => format!("{:?}", s),
        JsonValue::Int(i) => i.to_string(),
        JsonValue::Bool(b) => b.to_string(),
        JsonValue::Object(fs) => {
            let parts: Vec<String> = fs.iter().map(|(k, v)| format!("{}:{}", k, render(v))).collect();
            format!("{{{}}}", parts.join(","))
        }
    }
}

fn configured() -> PushConfig {
    let mut c = PushConfig::new();
    c.enabled = true;
    c.bark_token = "tok?sound=bell&group=g".to_string();
    c.pushplus_token = "pp".to_string();
    c.fangtang_token = "ft".to_string();
    c.dingtalk_token = "dt".to_string();
    c.wechat_token = "wx".to_string();
    c.gotify_config.gotify_url = "push.example.com".to_string();
    c.gotify_config.gotify_token = "gt".to_string();
    c
}

#[test]
fn new_configs_are_empty() {
    let c = PushConfig::new();
    assert!(!c.enabled && c.bark_token.is_empty() && c.gotify_config.gotify_url.is_empty());
    let g = GotifyConfig::new();
    assert!(g.gotify_url.is_empty() && g.gotify_token.is_empty());
    let s = SmtpConfig::new();
    assert!(s.smtp_server.is_empty() && s.smtp_to.is_empty());
    assert!(c.active_channels().is_empty());
}

#[test]
fn channels_in_order() {
    let mut c = configured();
    c.smtp_config.smtp_server = "smtp".to_string();
    assert_eq!(
        c.active_channels(),
        vec![
            PushChannel::Bark,
            PushChannel::PushPlus,
            PushChannel::Fangtang,
            PushChannel::Dingtalk,
            PushChannel::WeChat,
            PushChannel::Smtp,
            PushChannel::Gotify
        ]
    );
    assert_eq!(channel_name(PushChannel::WeChat), "WeChat");
}

#[test]
fn bark_call_takes_query_parameters() {
    let c = configured();
    assert_eq!(
        bark_params("tok?sound=bell&group=g&bad"),
        vec![("sound".to_string(), "bell".to_string()), ("group".to_string(), "g".to_string())]
    );
    let call = c.channel_call(PushChannel::Bark, "T", "M", &None).unwrap();
    assert_eq!(call.url, "https://api.day.app/tok?sound=bell&group=g");
    let body: Vec<String> = call.body.iter().map(|(k, v)| format!("{}={}", k, render(v))).collect();
    assert_eq!(
        body.join(";"),
        "title=\"T\";body=\"M\";level=\"timeSensitive\";badge=1;icon=\"https://sr.mihoyo.com/favicon-mi.ico\";group=\"g\";isArchive=1;sound=\"bell\""
    );
}

#[test]
fn other_channel_calls() {
    let c = configured();
    let p = c.channel_call(PushChannel::PushPlus, "T", "M", &None).unwrap();
    assert_eq!(p.url, "http://www.pushplus.plus/send");
    let f = c.channel_call(PushChannel::Fangtang, "T", "M", &None).unwrap();
    assert_eq!(f.url, "https://sctapi.ftqq.com/ft.send");
    let d = c.channel_call(PushChannel::Dingtalk, "T", "M", &None).unwrap();
    assert_eq!(d.url, "https://oapi.dingtalk.com/robot/send?access_token=dt");
    let w = c.channel_call(PushChannel::WeChat, "T", "M", &None).unwrap();
    assert_eq!(w.url, "https://qyapi.weixin.qq.com/cgi-bin/webhook/send?key=wx");
    let g = c.channel_call(PushChannel::Gotify, "T", "M", &Some("app://x".to_string())).unwrap();
    assert_eq!(g.url, "http://push.example.com/message");
    assert!(g.headers.contains(&("Authorization".to_string(), "Bearer gt".to_string())));
    let rendered: Vec<String> = g.body.iter().map(|(k, v)| format!("{}={}", k, render(v))).collect();
    assert!(rendered.join(";").contains("app://x"));
    assert!(c.channel_call(PushChannel::Smtp, "T", "M", &None).is_none());
    assert_eq!(c.gotify_target(), "http://push.example.com");
}

#[test]
fn summaries() {
    let all_ok = vec![(PushChannel::Bark, true, "推送成功".to_string()), (PushChannel::Gotify, true, "推送成功".to_string())];
    assert_eq!(push_summary(&all_ok), (true, "全部 2 个渠道推送成功".to_string()));
    let failed = vec![
        (PushChannel::Bark, false, "x".to_string()),
        (PushChannel::Smtp, false, "SMTP推送功能未实现".to_string()),
    ];
    assert_eq!(
        push_summary(&failed),
        (false, "0 成功 / 2 失败。失败详情: Bark推送出错: x; SMTP推送出错: SMTP推送功能未实现".to_string())
    );
    let mixed = vec![(PushChannel::Bark, false, "x".to_string()), (PushChannel::WeChat, true, "推送成功".to_string())];
    assert_eq!(push_summary(&mixed), (true, "全部 1 个渠道推送成功".to_string()));
    assert_eq!(push_summary(&Vec::new()), (false, "0 成功 / 0 失败。失败详情: ".to_string()));
    assert_eq!(status_outcome(204, "204 No Content"), (true, "推送成功".to_string()));
    assert_eq!(status_outcome(500, "500 Internal Server Error"), (false, "推送失败，状态码: 500 Internal Server Error".to_string()));
    assert_eq!(PushConfig::new().push_smtp("a", "b"), (false, "SMTP推送功能未实现".to_string()));
    assert!(contains_str("abcdef", "cde") && !contains_str("abc", "abcd") && contains_str("x", ""));
}

#[test]
fn push_all_queues_only_when_enabled() {
    let mut tm = TaskManagerImpl::new();
    PushConfig::new().push_all("t", "m", &None, &mut tm);
    assert!(tm.take_messages().is_empty());
    configured().push_all("t", "m", &Some("j".to_string()), &mut tm);
    let msgs = tm.take_messages();
    assert_eq!(msgs.len(), 1);
    match &msgs[0] {
        TaskMessage::SubmitTask(TaskRequest::PushRequest(p)) => {
            assert_eq!((p.title.as_str(), p.message.as_str()), ("t", "m"));
            assert_eq!(p.jump_url.as_deref(), Some("j"));
            assert_eq!(p.push_type, PushType::All);
        }
        _ => panic!("expected a push request"),
    }
}

#[test]
fn channel_outcomes() {
    assert_eq!(
        channel_outcome(&HttpReply::Received(200, "200 OK".to_string(), "{}".to_string())),
        (true, "推送成功".to_string())
    );
    assert_eq!(
        channel_outcome(&HttpReply::Received(404, "404 Not Found".to_string(), String::new())),
        (false, "推送失败，状态码: 404 Not Found".to_string())
    );
    assert_eq!(channel_outcome(&HttpReply::Failed("dns".to_string())), (false, "推送失败: dns".to_string()));
    assert_eq!(
        channel_outcome(&HttpReply::Unread(200, "200 OK".to_string(), "eof".to_string())),
        (false, "读取响应失败: eof".to_string())
    );
}
