use std::sync::Arc;

use biliticket::cookie_manager::{web_values, CookieManager, FreshIds};
use biliticket::cookies::CookiesData;

fn manager(cookies: &str) -> CookieManager {
    CookieManager::from_client(Arc::new(reqwest::Client::new()), cookies)
}

#[test]
fn store_reads_back_what_was_written() {
    let mut c = CookiesData::empty();
    c.insert("a".to_string(), "1".to_string());
    c.insert("b".to_string(), "2".to_string());
    c.insert("a".to_string(), "3".to_string());
    assert_eq!(c.len(), 2);
    assert_eq!(c.get("a"), Some("3".to_string()));
    assert_eq!(c.entry(0), ("a".to_string(), "3".to_string()));
    assert!(c.remove("a"));
    assert!(!c.remove("a"));
    assert_eq!(c.get("a"), None);
    c.clear();
    assert_eq!(c.len(), 0);
}

#[test]
fn cookie_strings_are_parsed() {
    let c = CookieManager::parse_cookie_string(" a=1 ; b=x=y;c=;d; =e;");
    assert_eq!(c.get("a"), Some("1".to_string()));
    assert_eq!(c.get("b"), Some("x=y".to_string()));
    assert_eq!(c.get("c"), None);
    assert_eq!(c.get("d"), None);
    assert_eq!(c.get(""), Some("e".to_string()));
    assert_eq!(c.len(), 3);
}

#[test]
fn session_cookie_text() {
    let mut m = manager("SESSDATA=s; bili_jct=j");
    assert_eq!(m.get_all_cookies(), "SESSDATA=s; bili_jct=j; ");
    assert_eq!(m.cookie_header(), "SESSDATA=s; bili_jct=j");
    m.update_cookie("x", "1");
    assert_eq!(m.get_cookie("x"), Some("1".to_string()));
    assert!(m.remove_cookie("SESSDATA"));
    assert_eq!(m.get_all_cookies(), "bili_jct=j; x=1; ");
    m.update_cookies("bili_jct=k; y=2");
    assert_eq!(m.get_all_cookies(), "bili_jct=k; x=1; y=2; ");
    m.absorb_set_cookies(&vec!["z=3; Path=/".to_string()]);
    assert_eq!(m.get_cookie("z"), Some("3".to_string()));
    assert_eq!(m.get_cookie("Path"), Some("/".to_string()));
    m.clear_all_cookies();
    assert_eq!(m.get_all_cookies(), "");
    assert_eq!(m.get_ua(), None);
}

#[test]
fn saved_cookie_text_restores_the_session() {
    let m = manager("a=1; b=2=3; c=x y");
    let restored = manager(&m.get_all_cookies());
    assert_eq!(restored.get_all_cookies(), m.get_all_cookies());
}

fn fresh() -> FreshIds {
    FreshIds {
        buvids: ("n3".to_string(), "n4".to_string(), "nnut".to_string()),
        buvid_fp: "nfp".to_string(),
        uuid: "nuuid".to_string(),
        bili_ticket: ("nticket".to_string(), "99".to_string()),
        device_fingerprint: "ndf".to_string(),
    }
}

#[test]
fn browser_session_keeps_existing_ids() {
    let c = CookieManager::parse_cookie_string(
        "buvid3=a; buvid4=b; b_nut=c; buvid_fp=fp; _uuid=u; bili_ticket=t; bili_ticket_expires=2000; msource=m; deviceFingerprint=d",
    );
    let v = web_values(&c, fresh(), 1000);
    assert_eq!((v.buvid3.as_str(), v.buvid4.as_str(), v.b_nut.as_str()), ("a", "b", "c"));
    assert_eq!((v.buvid_fp.as_str(), v.uuid.as_str()), ("fp", "u"));
    assert_eq!((v.bili_ticket.as_str(), v.bili_ticket_expires.as_str()), ("t", "2000"));
    assert_eq!((v.msource.as_str(), v.device_fingerprint.as_str()), ("m", "d"));
}

#[test]
fn browser_session_fills_missing_ids() {
    let c = CookieManager::parse_cookie_string("buvid3=a; buvid4=b; bili_ticket=t; bili_ticket_expires=500");
    let v = web_values(&c, fresh(), 1000);
    assert_eq!((v.buvid3.as_str(), v.buvid4.as_str(), v.b_nut.as_str()), ("n3", "n4", "nnut"));
    assert_eq!((v.buvid_fp.as_str(), v.uuid.as_str()), ("nfp", "nuuid"));
    assert_eq!((v.bili_ticket.as_str(), v.bili_ticket_expires.as_str()), ("nticket", "99"));
    assert_eq!((v.msource.as_str(), v.device_fingerprint.as_str()), ("bilibiliapp", "ndf"));
    let c = CookieManager::parse_cookie_string("bili_ticket=t; bili_ticket_expires=soon");
    let v = web_values(&c, fresh(), 1000);
    assert_eq!(v.bili_ticket, "nticket");
}

#[test]
fn browser_session_cookie_store() {
    let c = CookieManager::parse_cookie_string("msource=m; other=x; buvid3=a");
    let v = web_values(&c, fresh(), 1000);
    let client = Arc::new(reqwest::Client::new());
    let m = CookieManager::web_session(
        client.clone(),
        client,
        c,
        "UA".to_string(),
        "Chrome/120".to_string(),
        "(Linux)".to_string(),
        v,
    );
    assert_eq!(m.get_cookie("msource"), Some("m".to_string()));
    assert_eq!(m.get_cookie("mSource"), Some("bilibiliapp".to_string()));
    assert_eq!(m.get_cookie("other"), Some("x".to_string()));
    assert_eq!(m.get_cookie("buvid3"), Some("n3".to_string()));
    assert_eq!(m.get_cookie("header_theme_version"), Some("CLOSE".to_string()));
    assert_eq!(m.get_cookie("feSign").map(|f| f.len()), Some(32));
    assert_eq!(m.get_ua(), Some("UA".to_string()));
}
