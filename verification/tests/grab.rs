use biliticket::grab::round_result;
use biliticket::grab::{order_args, snatch_candidate, snatch_supported};
use biliticket::grab::{
    after_captcha_failure, after_order_error, after_round, after_token_error, countdown_waits, is_captcha_code,
    max_token_retry, needs_retry_click, order_loop_step, skip_ticket, success_notice, OrderEvent, OrderStep,
    RoundStep, TokenStep,
};

#[test]
fn final_codes_end_the_attempt() {
    for code in [100017, 100016, 1, 83000004, 100079, 100003, 100039, 209001, 919] {
        let r = after_order_error(code, 7, 0);
        assert_eq!((r.pause_ms, r.outcome, r.next_count, r.settle_ms), (0, Some((true, false)), 7, 0));
    }
}

#[test]
fn expired_tokens_ask_for_a_new_one() {
    for code in [100041, 100050, 900002] {
        let r = after_order_error(code, 2, 2);
        assert_eq!((r.outcome, r.next_count), (Some((true, true)), 2));
    }
}

#[test]
fn transient_codes_pause_and_count() {
    let r = after_order_error(429, 0, 0);
    assert_eq!((r.pause_ms, r.outcome, r.next_count, r.settle_ms), (300, None, 1, 400));
    let r = after_order_error(100009, 4, 1);
    assert_eq!((r.pause_ms, r.next_count), (600, 5));
    let r = after_order_error(3, 0, 0);
    assert_eq!(r.pause_ms, 4800);
    let r = after_order_error(211, 0, 0);
    assert_eq!((r.pause_ms, r.outcome, r.settle_ms), (0, None, 400));
}

#[test]
fn snatch_mode_gives_up_a_kind_after_thirty_failures() {
    let r = after_order_error(211, 29, 2);
    assert_eq!((r.outcome, r.next_count, r.settle_ms), (Some((false, true)), 30, 0));
    let r = after_order_error(211, 29, 0);
    assert_eq!((r.outcome, r.next_count), (None, 30));
}

#[test]
fn order_loop_steps() {
    let mut n = 5;
    assert!(matches!(order_loop_step(&mut n, 0, OrderEvent::Placed), OrderStep::Done(0, true, false)));
    assert!(matches!(order_loop_step(&mut n, 0, OrderEvent::CheckFailed), OrderStep::Again(0, 0)));
    assert_eq!(n, 5);
    assert!(matches!(order_loop_step(&mut n, 0, OrderEvent::Refused(900001)), OrderStep::Again(300, 400)));
    assert_eq!(n, 6);
    assert!(matches!(order_loop_step(&mut n, 0, OrderEvent::Refused(100041)), OrderStep::Done(0, true, true)));
    let mut m = 29;
    assert!(matches!(order_loop_step(&mut m, 2, OrderEvent::Refused(100001)), OrderStep::Done(300, false, true)));
}

#[test]
fn retry_button_from_third_failure() {
    assert!(!needs_retry_click(2));
    assert!(needs_retry_click(3));
}

#[test]
fn token_limits_by_mode() {
    assert_eq!(max_token_retry(0), 5);
    assert_eq!(max_token_retry(1), 10);
    assert_eq!(max_token_retry(2), 5);
    assert!(is_captcha_code(-401) && is_captcha_code(401) && !is_captcha_code(400));
}

#[test]
fn token_errors_give_up_at_the_limit() {
    let mut n = 3;
    assert!(matches!(after_token_error(&mut n, 0, 100080, "x"), TokenStep::RetryAfterSecond));
    match after_token_error(&mut n, 0, 100080, "bad") {
        TokenStep::GiveUp(m) => assert_eq!(m, "获取token失败，错误代码: 100080，错误信息：bad"),
        _ => panic!("expected to give up"),
    }
    assert_eq!(n, 5);
    let mut c = 9;
    match after_captcha_failure(&mut c, 1, "timeout") {
        TokenStep::GiveUp(m) => assert_eq!(m, "验证码处理失败，已达最大重试次数: timeout"),
        _ => panic!("expected to give up"),
    }
    let mut d = 0;
    assert!(matches!(after_captcha_failure(&mut d, 1, "t"), TokenStep::RetryAfterSecond));
}

#[test]
fn rounds_per_token() {
    let mut r = 0;
    assert_eq!(after_round(0, true, false, &mut r), RoundStep::Finish);
    assert_eq!(after_round(0, true, true, &mut r), RoundStep::Again);
    assert_eq!(after_round(1, true, true, &mut r), RoundStep::Finish);
    assert_eq!(after_round(2, false, true, &mut r), RoundStep::NextScreen);
    assert_eq!(r, 1);
    assert_eq!(after_round(1, false, false, &mut r), RoundStep::Again);
    assert_eq!(after_round(1, false, false, &mut r), RoundStep::Again);
    assert_eq!(after_round(1, false, false, &mut r), RoundStep::GiveUp);
    let mut s = 3;
    assert_eq!(after_round(2, false, false, &mut s), RoundStep::NextTicket);
}

#[test]
fn countdown_schedule() {
    assert_eq!(countdown_waits(0), Vec::<u32>::new());
    assert_eq!(countdown_waits(-5), Vec::<u32>::new());
    assert_eq!(countdown_waits(1), vec![800]);
    assert_eq!(countdown_waits(3), vec![1000, 1000, 800]);
    let w = countdown_waits(50);
    assert_eq!(&w[..3], &[15000, 15000, 1000]);
    assert_eq!(w.iter().map(|&x| x as u64).sum::<u64>(), 1000 * 49 + 800);
}

#[test]
fn success_notice_text() {
    let (title, text, jump) = success_notice("演唱会", "第一场", "VIP", "https://pay", 12345, 2, 99);
    assert_eq!(title, "恭喜演唱会抢票成功！");
    assert!(text.starts_with("抢票成功！\n项目：演唱会\n场次：第一场\n票类型：VIP\n支付链接：https://pay\n请尽快支付246元"));
    assert_eq!(jump, "bilibili://mall/web?url=https://mall.bilibili.com/neul-next/ticket/orderDetail.html?order_id=99");
    let (_, neg, _) = success_notice("p", "s", "t", "u", -150, 1, 0);
    assert!(neg.contains("请尽快支付-1元"));
}

#[test]
fn skip_words_ignore_case() {
    let words = Some(vec!["VIP".to_string()]);
    assert!(skip_ticket(&Some("vip场".to_string()), &None, &words));
    assert!(skip_ticket(&None, &Some("Vip票".to_string()), &words));
    assert!(!skip_ticket(&Some("普通".to_string()), &Some("站票".to_string()), &words));
    assert!(!skip_ticket(&Some("vip".to_string()), &None, &None));
    assert!(!skip_ticket(&Some("vip".to_string()), &None, &Some(Vec::new())));
}

#[test]
fn confirm_round_results() {
    assert_eq!(round_result(None), (false, false));
    assert_eq!(round_result(Some((true, true))), (true, true));
}

#[test]
fn order_arguments_follow_the_failures() {
    for k in 0..40u32 {
        let a = order_args(k);
        assert!(a.is_mobile && !a.fast_mode && a.screen_size.is_none());
        assert_eq!(a.need_retry, k >= 3);
    }
}

#[test]
fn snatching_needs_named_buyers() {
    assert!(snatch_supported(1) && snatch_supported(2));
    assert!(!snatch_supported(0) && !snatch_supported(3) && !snatch_supported(-1));
}

#[test]
fn snatch_candidates() {
    let words = Some(vec!["VIP".to_string()]);
    let name = Some("周六场".to_string());
    assert!(snatch_candidate(Some(true), &name, &Some("普通票".to_string()), &words));
    assert!(!snatch_candidate(Some(true), &name, &Some("vip看台".to_string()), &words));
    assert!(!snatch_candidate(None, &name, &None, &None));
    assert!(!snatch_candidate(Some(false), &name, &None, &None));
    assert!(snatch_candidate(Some(true), &None, &None, &None));
}

#[test]
fn token_failures_give_up_at_the_limit() {
    for (mode, limit) in [(0u8, 5u32), (1, 10), (2, 5)] {
        let mut retries = 0u32;
        let mut calls = 0u32;
        loop {
            calls += 1;
            match after_token_error(&mut retries, mode, 100001, "busy") {
                TokenStep::RetryAfterSecond => {}
                TokenStep::GiveUp(m) => {
                    assert_eq!(m, "获取token失败，错误代码: 100001，错误信息：busy");
                    break;
                }
            }
        }
        assert_eq!(calls, limit);
    }
}

#[test]
fn four_failed_rounds_end_a_token() {
    for (mode, last) in [(0u8, RoundStep::GiveUp), (1, RoundStep::GiveUp), (2, RoundStep::NextTicket)] {
        let mut rounds = 0u32;
        let mut n = 0;
        let end = loop {
            n += 1;
            let step = after_round(mode, false, false, &mut rounds);
            if step != RoundStep::Again {
                break step;
            }
        };
        assert_eq!((n, end), (4, last));
    }
}

#[test]
fn snatch_orders_end_after_thirty_refusals() {
    let mut retries = 0u32;
    let mut plain = 0;
    let mut calls = 0;
    let end = loop {
        if !order_args(retries).need_retry {
            plain += 1;
        }
        calls += 1;
        match order_loop_step(&mut retries, 2, OrderEvent::Refused(100001)) {
            OrderStep::Done(_, a, b) => break (a, b),
            OrderStep::Again(_, _) => {}
        }
    };
    assert_eq!((calls, plain, end), (30, 3, (false, true)));
}
