use biliticket::api::{buyer_info_result, clock_url, qr_after_poll, should_cache_buyers, QrNext};
use std::sync::Arc;

use biliticket::api::{
    buyer_list_url, cache_path, click_position, code_of, confirm_url, cookie_prefix, escape_pointer_token,
    fake_check_passed, fake_check_url, get_countdown, id_number, join_with, network_now, offset_range,
    order_outcome, order_request, position_type, project_headers, project_or_cached, project_url, qr_poll_url,
    qr_user_agent, read_confirm_reply, read_details_reply, read_fake_check_reply, read_order_reply, read_qr_poll,
    read_token_reply, remove_char, token_body, token_request, ClickPosition, ClickPositionType, HttpReply,
    QrCodeLoginStatus, TicketChoice,
};
use biliticket::cookie_manager::CookieManager;
use biliticket::gen_cp::CTokenGenerator;
use biliticket::json::JsonValue;

fn render(v: &JsonValue) -> String {
    match v {
        JsonValue::Null => "null".to_string(),
        JsonValue::Str(s) => format!("{:?}", s),
        JsonValue::Int(i) => i.to_string(),
        JsonValue::Bool(b) => b.to_string(),
        JsonValue::Object(fs) => render_fields(fs),
    }
}

fn render_fields(fs: &[(String, JsonValue)]) -> String {
    let parts: Vec<String> = fs.iter().map(|(k, v)| format!("{}:{}", k, render(v))).collect();
    format!("{{{}}}", parts.join(","))
}

fn ok(text: &str) -> HttpReply {
    HttpReply::Received(200, "200 OK".to_string(), text.to_string())
}

#[test]
fn ids_parse_like_i64() {
    assert_eq!(id_number("+12"), 12);
    assert_eq!(id_number("-5"), -5);
    assert_eq!(id_number("x1"), 0);
    assert_eq!(id_number(""), 0);
    assert_eq!(id_number("9223372036854775807"), i64::MAX);
    assert_eq!(id_number("9223372036854775808"), 0);
}

#[test]
fn token_body_fields() {
    let b = token_body(2, "123", "456", "x", "");
    assert_eq!(
        render_fields(&b),
        "{count:2,screen_id:123,order_type:1,project_id:456,sku_id:0,token:\"\",newRisk:true,requestSource:\"neul-next\"}"
    );
}

#[test]
fn token_request_ordinary_and_hot() {
    let mut g = CTokenGenerator::new(0, 0, 5000, None);
    let (url, body) = token_request(&mut g, "77", "1", "2", 1, false);
    assert_eq!(url, "https://show.bilibili.com/api/ticket/order/prepare?project_id=77");
    assert!(render_fields(&body).contains("token:\"\""));
    let (_, hot) = token_request(&mut g, "77", "1", "2", 1, true);
    let token = hot.iter().find(|(k, _)| k == "token").map(|(_, v)| render(v)).unwrap();
    assert!(token.len() > 2);
}

#[test]
fn token_reply_success() {
    let text = r#"{"errno":0,"data":{"token":"tk","ptoken":"p="}}"#;
    match read_token_reply(&ok(text), true) {
        Ok((t, p)) => {
            assert_eq!(t, "tk");
            assert_eq!(p, "p=");
        }
        Err(_) => panic!("expected a token"),
    }
    match read_token_reply(&ok(text), false) {
        Ok((t, p)) => {
            assert_eq!(t, "tk");
            assert_eq!(p, "");
        }
        Err(_) => panic!("expected a token"),
    }
}

#[test]
fn token_reply_code_falls_back_to_code_field() {
    let text = r#"{"code":100080,"msg":"bad screen"}"#;
    assert_eq!(code_of(text), 100080);
    match read_token_reply(&ok(text), false) {
        Err(e) => {
            assert_eq!(e.code, 100080);
            assert_eq!(e.message, "bad screen");
            assert!(e.mid.is_none() && e.risk_param.is_none());
        }
        Ok(_) => panic!("expected a refusal"),
    }
    assert_eq!(code_of("{}"), -1);
}

#[test]
fn token_reply_challenge() {
    let text = r#"{"errno":-401,"msg":"need","data":{"ga_data":{"riskParams":{"mid":"9","v_voucher":"vv"}}}}"#;
    match read_token_reply(&ok(text), true) {
        Err(e) => {
            assert_eq!(e.code, -401);
            assert_eq!(e.message, "need");
            assert_eq!(e.mid.as_deref(), Some("9"));
            assert_eq!(e.buvid.as_deref(), Some(""));
            assert_eq!(e.v_voucher.as_deref(), Some("vv"));
            assert_eq!(e.risk_param.as_deref(), Some(r#"{"mid":"9","v_voucher":"vv"}"#));
        }
        Ok(_) => panic!("expected a challenge"),
    }
    let bare = r#"{"code":401}"#;
    match read_token_reply(&ok(bare), false) {
        Err(e) => {
            assert_eq!(e.code, 401);
            assert_eq!(e.message, "未知错误");
            assert_eq!(e.risk_param.as_deref(), Some("null"));
        }
        Ok(_) => panic!("expected a challenge"),
    }
}

#[test]
fn token_reply_transport_errors_are_999() {
    let e = read_token_reply(&HttpReply::Failed("boom".to_string()), false).err().unwrap();
    assert_eq!((e.code, e.message.as_str()), (999, "boom"));
    let e = read_token_reply(&HttpReply::Received(500, "500 Internal Server Error".to_string(), String::new()), false)
        .err()
        .unwrap();
    assert_eq!((e.code, e.message.as_str()), (999, "500 Internal Server Error"));
    let e = read_token_reply(&ok("not json"), false).err().unwrap();
    assert_eq!(e.code, 999);
    assert!(!e.message.is_empty());
    let e = read_token_reply(&HttpReply::Unread(200, "200 OK".to_string(), "cut".to_string()), false).err().unwrap();
    assert_eq!((e.code, e.message.as_str()), (999, "cut"));
}

#[test]
fn order_reply_codes() {
    let good = r#"{"errno":0,"data":{"orderId":77,"token":"pay"}}"#;
    assert_eq!(read_order_reply(&ok(good)), Ok(good.to_string()));
    assert_eq!(order_outcome(good), (77, "pay".to_string()));
    assert_eq!(order_outcome("{}"), (0, String::new()));
    assert_eq!(read_order_reply(&ok(r#"{"code":0}"#)), Err(0));
    assert_eq!(read_order_reply(&ok(r#"{"errno":100009}"#)), Err(100009));
    assert_eq!(read_order_reply(&ok(r#"{"errno":-1,"code":5}"#)), Err(5));
    assert_eq!(read_order_reply(&HttpReply::Received(429, "429".to_string(), String::new())), Err(429));
    assert_eq!(read_order_reply(&HttpReply::Failed("x".to_string())), Err(412));
    assert_eq!(read_order_reply(&ok("xx")), Err(412));
    assert_eq!(read_order_reply(&HttpReply::Unread(200, String::new(), "e".to_string())), Err(412));
}

fn session() -> CookieManager {
    CookieManager::from_client(Arc::new(reqwest::Client::new()), "DedeUserID=42; buvid3=B3; deviceFingerprint=FP")
}

fn click() -> ClickPosition {
    ClickPosition { x: 1, y: 2, origin: 3, now: 4 }
}

#[test]
fn order_request_bound_ordinary() {
    let cm = session();
    let mut g = CTokenGenerator::new(0, 0, 5000, None);
    let t = TicketChoice {
        screen_id: "11".to_string(),
        select_ticket_id: Some("22".to_string()),
        id_bind: 1,
        no_bind_buyer: None,
    };
    let o = order_request(&cm, &mut g, "33", "tok", "p=q", 2, 9900, false, &t, "[]", true, &click(), 1000)
        .ok()
        .unwrap();
    assert_eq!(o.url, "https://show.bilibili.com/api/ticket/order/createV2?project_id=33");
    assert_eq!(o.risk_header, "platform/h5 uid/42 deviceId/B3");
    assert_eq!(
        render_fields(&o.body),
        "{project_id:33,screen_id:11,sku_id:22,token:\"tok\",buyer_info:\"[]\",clickPosition:{x:1,y:2,origin:3,now:4},newRisk:true,requestSource:\"neul-next\",deviceId:\"FP\",pay_money:9900,count:2,timestamp:1000,order_type:1}"
    );
}

#[test]
fn order_request_hot_and_unbound() {
    let cm = CookieManager::from_client(Arc::new(reqwest::Client::new()), "");
    let mut g = CTokenGenerator::new(0, 0, 5000, None);
    let t = TicketChoice {
        screen_id: "11".to_string(),
        select_ticket_id: Some("22".to_string()),
        id_bind: 2,
        no_bind_buyer: None,
    };
    let o = order_request(&cm, &mut g, "33", "tok", "a=b=c", 1, 5, true, &t, "[]", false, &click(), 7).ok().unwrap();
    assert_eq!(o.url, "https://show.bilibili.com/api/ticket/order/createV2?project_id=33&ptoken=abc");
    assert_eq!(o.risk_header, "platform/h5 uid/ deviceId/");
    let r = render_fields(&o.body);
    assert!(r.contains("ptoken:\"abc\""));
    assert!(r.contains("ctoken:\""));
    assert!(r.contains("deviceId:null"));
    assert!(r.contains("requestSource:\"pc-new\""));
    let u = TicketChoice {
        screen_id: "11".to_string(),
        select_ticket_id: Some("22".to_string()),
        id_bind: 0,
        no_bind_buyer: Some(("Ann".to_string(), "123".to_string())),
    };
    let o = order_request(&cm, &mut g, "33", "tok", "", 1, 5, true, &u, "[]", true, &click(), 7).ok().unwrap();
    assert_eq!(
        render_fields(&o.body),
        "{project_id:33,screen_id:11,sku_id:22,token:\"tok\",buyer:\"Ann\",tel:\"123\",clickPosition:{x:1,y:2,origin:3,now:4},newRisk:true,requestSource:\"neul-next\",deviceId:null,pay_money:5,count:1,timestamp:7,order_type:1}"
    );
}

#[test]
fn order_request_errors() {
    let cm = session();
    let mut g = CTokenGenerator::new(0, 0, 5000, None);
    let mut t = TicketChoice { screen_id: "1".to_string(), select_ticket_id: None, id_bind: 1, no_bind_buyer: None };
    assert_eq!(order_request(&cm, &mut g, "3", "t", "", 1, 1, false, &t, "", true, &click(), 1).err(), Some(999));
    t.select_ticket_id = Some("x".to_string());
    assert_eq!(order_request(&cm, &mut g, "3", "t", "", 1, 1, false, &t, "", true, &click(), 1).err(), Some(999));
    t.select_ticket_id = Some("5".to_string());
    t.id_bind = 3;
    assert_eq!(order_request(&cm, &mut g, "3", "t", "", 1, 1, false, &t, "", true, &click(), 1).err(), Some(919));
}

#[test]
fn click_kinds_and_ranges() {
    assert_eq!(position_type(true, true), ClickPositionType::RetryButton);
    assert_eq!(position_type(true, false), ClickPositionType::PcConfirm);
    assert_eq!(position_type(false, true), ClickPositionType::MobileConfirm);
    assert_eq!(offset_range(ClickPositionType::PcConfirm, 1080), 10);
    assert_eq!(offset_range(ClickPositionType::MobileConfirm, 1080), 5);
    assert_eq!(offset_range(ClickPositionType::MobileConfirm, 12), 3);
    assert_eq!(offset_range(ClickPositionType::RetryButton, 1080), 7);
    for _ in 0..50 {
        let c = click_position(ClickPositionType::PcConfirm, true, None, (0, 0), 1_000_000);
        assert!((1121..=1141).contains(&c.x) && (626..=646).contains(&c.y));
        assert!((800..4600).contains(&(c.now - c.origin)) && c.now == 1_000_000);
        let m = click_position(ClickPositionType::MobileConfirm, false, Some(1080), (500, 2000), 50_000);
        assert!((495..=505).contains(&m.x) && (1995..=2005).contains(&m.y));
        assert!((4000..12000).contains(&(m.now - m.origin)));
    }
}

#[test]
fn ptoken_loses_equals_signs() {
    assert_eq!(remove_char("a=b==", '='), "ab");
    assert_eq!(remove_char("", '='), "");
}

#[test]
fn confirm_url_and_reply() {
    assert_eq!(
        confirm_url("1", "t"),
        "https://show.bilibili.com/api/ticket/order/confirmInfo?token=t&voucher=&project_id=1&requestSource=neul-next"
    );
    assert_eq!(read_confirm_reply(&ok(r#"{"errno":0,"data":{"x":1}}"#)), Ok("{\"x\":1}".to_string()));
    assert_eq!(read_confirm_reply(&ok(r#"{"errno":3,"msg":"bad"}"#)), Err("确认订单失败: bad".to_string()));
    assert_eq!(read_confirm_reply(&ok(r#"{"code":0}"#)), Err("确认订单失败: 未知错误".to_string()));
    assert_eq!(
        read_confirm_reply(&HttpReply::Unread(200, String::new(), "eof".to_string())),
        Err("获取响应文本失败: eof".to_string())
    );
    assert_eq!(
        read_confirm_reply(&HttpReply::Received(404, "404 Not Found".to_string(), String::new())),
        Err("请求失败: 404 Not Found".to_string())
    );
    assert_eq!(read_confirm_reply(&HttpReply::Failed("down".to_string())), Err("请求失败: down".to_string()));
    assert!(read_confirm_reply(&ok("<html>")).err().unwrap().starts_with("解析响应文本失败: "));
}

#[test]
fn fake_check() {
    assert_eq!(
        fake_check_url("1", "tok", 1700000000, 0),
        "https://show.bilibili.com/api/ticket/order/createstatus?project_id=1&token=tok&timestamp=1700000000"
    );
    assert_eq!(
        fake_check_url("1", "tok", 5, 55),
        "https://show.bilibili.com/api/ticket/order/createstatus?project_id=1&token=tok&timestamp=5&orderId=55"
    );
    assert!(fake_check_passed(r#"{"errno":0}"#));
    assert!(fake_check_passed("{}"));
    assert!(!fake_check_passed(r#"{"errno":1}"#));
    assert_eq!(read_fake_check_reply(&ok("{}")), Ok("{}".to_string()));
    assert_eq!(read_fake_check_reply(&HttpReply::Failed("e".to_string())), Err("请求失败: e".to_string()));
    assert!(read_fake_check_reply(&ok("")).err().unwrap().starts_with("解析响应文本失败: "));
}

#[test]
fn countdown_and_clock() {
    let r = ok(r#"{"code":0,"data":{"now":400}}"#);
    assert_eq!(network_now(&r), 400);
    assert_eq!(network_now(&HttpReply::Failed(String::new())), 0);
    assert_eq!(get_countdown(Some(Some(1000)), &r), Ok(600));
    assert_eq!(get_countdown(None, &r), Err("获取开始时间失败".to_string()));
    assert_eq!(get_countdown(Some(None), &r), Err("开售时间(sale_begin)为空".to_string()));
    let local = get_countdown(Some(Some(0)), &ok("garbage")).unwrap();
    assert!(local < 0);
}

#[test]
fn qr_login_success_collects_cookies() {
    let lines = vec!["SESSDATA=abc; Path=/; HttpOnly".to_string()];
    let text = r#"{"data":{"code":0,"cookie_info":{"bili_jct":{"value":"j"},"x":{"other":1}}}}"#;
    match read_qr_poll(&lines, &ok(text)) {
        Some(QrCodeLoginStatus::Success(c)) => assert_eq!(c, "SESSDATA=abc; bili_jct=j"),
        _ => panic!("expected success"),
    }
    match read_qr_poll(&Vec::new(), &ok(r#"{"data":{"code":0}}"#)) {
        Some(QrCodeLoginStatus::Failed(m)) => assert_eq!(m, "无法获取Cookie信息"),
        _ => panic!("expected failure"),
    }
}

#[test]
fn qr_login_states() {
    assert!(matches!(read_qr_poll(&Vec::new(), &ok(r#"{"data":{"code":86038}}"#)), Some(QrCodeLoginStatus::Expired)));
    assert!(read_qr_poll(&Vec::new(), &ok(r#"{"data":{"code":86101}}"#)).is_none());
    assert!(read_qr_poll(&Vec::new(), &ok(r#"{"data":{"code":86090}}"#)).is_none());
    match read_qr_poll(&Vec::new(), &ok(r#"{"message":"gone","data":{"code":1}}"#)) {
        Some(QrCodeLoginStatus::Failed(m)) => assert_eq!(m, "gone"),
        _ => panic!("expected failure"),
    }
    match read_qr_poll(&Vec::new(), &ok(r#"{"data":{}}"#)) {
        Some(QrCodeLoginStatus::Failed(m)) => assert_eq!(m, "未知错误"),
        _ => panic!("expected failure"),
    }
    match read_qr_poll(&Vec::new(), &HttpReply::Failed("offline".to_string())) {
        Some(QrCodeLoginStatus::Failed(m)) => assert_eq!(m, "offline"),
        _ => panic!("expected failure"),
    }
}

#[test]
fn qr_helpers() {
    assert_eq!(
        qr_poll_url("k1"),
        "https://passport.bilibili.com/x/passport-login/web/qrcode/poll?qrcode_key=k1"
    );
    assert_eq!(qr_user_agent(Some("me")), "me");
    assert_eq!(
        qr_user_agent(None),
        "Mozilla/5.0 (Windows NT 10.0; Win64; x64) Chrome/110.0.0.0 Safari/537.36"
    );
    assert_eq!(cookie_prefix("a=1;b"), "a=1");
    assert_eq!(cookie_prefix("a=1"), "a=1");
    assert_eq!(escape_pointer_token("a/b~c"), "a~1b~0c");
    let parts = vec!["a".to_string(), "b".to_string(), "c".to_string()];
    assert_eq!(join_with(&parts, "; "), "a; b; c");
    assert_eq!(join_with(&Vec::new(), "; "), "");
}

#[test]
fn project_and_buyer_requests() {
    assert_eq!(cache_path("42"), "cache/project_42.json");
    assert_eq!(project_url("7"), "https://show.bilibili.com/api/ticket/project/getV2?id=7&project_id=7");
    let h = project_headers("https://x");
    assert_eq!(h, vec![("Referer".to_string(), "https://x".to_string())]);
    assert_eq!(buyer_list_url(), "https://show.bilibili.com/api/ticket/buyer/list");
    assert_eq!(read_details_reply(&ok("{}"), "项目详情"), Ok("{}".to_string()));
    assert_eq!(
        read_details_reply(&HttpReply::Received(403, "403 Forbidden".to_string(), String::new()), "项目详情"),
        Err("请求响应失败: 403 Forbidden".to_string())
    );
    assert_eq!(
        read_details_reply(&HttpReply::Unread(200, String::new(), "cut".to_string()), "购票人信息"),
        Err("获取购票人信息失败：cut".to_string())
    );
    assert_eq!(project_or_cached(Ok(1), Some(2)), Ok(1));
    assert_eq!(project_or_cached(Err("e".to_string()), Some(2)), Ok(2));
    assert_eq!(project_or_cached::<i32>(Err("e".to_string()), None), Err("e".to_string()));
}

#[test]
fn qr_poll_steps() {
    assert!(matches!(qr_after_poll(1, Some(QrCodeLoginStatus::Expired)), QrNext::Done(QrCodeLoginStatus::Expired)));
    assert!(matches!(qr_after_poll(1, None), QrNext::PollAgain));
    assert!(matches!(qr_after_poll(58, None), QrNext::PollAgain));
    assert!(matches!(qr_after_poll(59, None), QrNext::Expire));
}

#[test]
fn buyer_info_outcomes() {
    assert!(!should_cache_buyers(0) && should_cache_buyers(2));
    assert_eq!(buyer_info_result(Ok(7), Some((8, 1))), (true, Some(7), "购票人信息请求成功".to_string()));
    assert_eq!(
        buyer_info_result(Err("down".to_string()), Some((8, 1))),
        (true, Some(8), "网络获取购票人失败，已从本地缓存读取".to_string())
    );
    assert_eq!(buyer_info_result(Err("down".to_string()), Some((8, 0))), (false, None, "down".to_string()));
    assert_eq!(buyer_info_result::<i32>(Err("down".to_string()), None), (false, None, "down".to_string()));
}

#[test]
fn clock_endpoint() {
    assert_eq!(clock_url(), "https://api.bilibili.com/x/click-interface/click/now");
}
