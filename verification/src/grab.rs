//! Decisions of the ticket-grabbing loops: what an order error code means,
//! when to fetch a new token, when to give up, and how long to wait.

use vstd::prelude::*;
use crate::text::{push_str, push_decimal, decimal};
use crate::push::{contains_seq, contains_str};

verus! {

/// Order error codes after which a new token is needed.
pub open spec fn is_token_expired_code(code: i32) -> bool {
    code == 100041 || code == 100050 || code == 900002
}

/// Order error codes after which the attempt ends for good: sold out,
/// one-person projects, missing buyers, unpaid orders, closed sales, buyer
/// count rules, wrongly typed projects.
pub open spec fn is_final_code(code: i32) -> bool {
    code == 100017 || code == 100016 || code == 1 || code == 83000004 || code == 100079 || code
        == 100003 || code == 100039 || code == 209001 || code == 919
}

/// Extra pause after an order error before the retry is counted:
/// rate limits 0.3 s, low stock 0.6 s, the five-second penalty 4.8 s.
pub open spec fn order_pause_ms(code: i32) -> u32 {
    if code == 100001 || code == 429 || code == 900001 {
        300
    } else if code == 100009 {
        600
    } else if code == 3 {
        4800
    } else {
        0
    }
}

/// What follows a failed order.
pub struct OrderRetry {
    /// Pause before anything else.
    pub pause_ms: u32,
    /// The attempt's result where it ends: (finished, token or limit exhausted).
    pub outcome: Option<(bool, bool)>,
    /// Failed orders counted so far.
    pub next_count: u32,
    /// Pause before the next order where the attempt goes on.
    pub settle_ms: u32,
}

/// Orders placed in the snatching mode give up a ticket kind after this many failures.
pub open spec fn snatch_order_limit() -> u32 {
    30
}

pub open spec fn order_retry_spec(code: i32, retry_count: u32, grab_mode: u8) -> (u32, Option<(bool, bool)>, int, u32) {
    if is_final_code(code) {
        (0, Some((true, false)), retry_count as int, 0)
    } else if is_token_expired_code(code) {
        (0, Some((true, true)), retry_count as int, 0)
    } else if grab_mode == 2 && retry_count + 1 >= snatch_order_limit() {
        (order_pause_ms(code), Some((false, true)), retry_count + 1, 0)
    } else {
        (order_pause_ms(code), None, retry_count + 1, 400)
    }
}

/// What follows an order that failed with `code`, the `retry_count`-th
/// failure so far, in grab mode `grab_mode`.
pub fn after_order_error(code: i32, retry_count: u32, grab_mode: u8) -> (r: OrderRetry)
    requires
        retry_count < u32::MAX,
    ensures
        (r.pause_ms, r.outcome, r.next_count as int, r.settle_ms) == order_retry_spec(code, retry_count, grab_mode),
{
    if code == 100017 || code == 100016 || code == 1 || code == 83000004 || code == 100079 || code
        == 100003 || code == 100039 || code == 209001 || code == 919 {
        return OrderRetry { pause_ms: 0, outcome: Some((true, false)), next_count: retry_count, settle_ms: 0 };
    }
    if code == 100041 || code == 100050 || code == 900002 {
        return OrderRetry { pause_ms: 0, outcome: Some((true, true)), next_count: retry_count, settle_ms: 0 };
    }
    let pause: u32 = if code == 100001 || code == 429 || code == 900001 {
        300
    } else if code == 100009 {
        600
    } else if code == 3 {
        4800
    } else {
        0
    };
    let next = retry_count + 1;
    if grab_mode == 2 && next >= 30 {
        OrderRetry { pause_ms: pause, outcome: Some((false, true)), next_count: next, settle_ms: 0 }
    } else {
        OrderRetry { pause_ms: pause, outcome: None, next_count: next, settle_ms: 400 }
    }
}

/// What happened to one order attempt.
pub enum OrderEvent {
    /// The order went through and passed the fake-order check.
    Placed,
    /// The order went through but its check failed or found it fake.
    CheckFailed,
    /// The order was refused with this code.
    Refused(i32),
}

/// What the order loop does next.
pub enum OrderStep {
    /// The loop ends, after `pause_ms` milliseconds, with (finished,
    /// token or limit exhausted).
    Done(u32, bool, bool),
    /// Order again after `pause_ms` and then `settle_ms` milliseconds.
    Again(u32, u32),
}

/// The order loop's step after `event`, `retry_count` failures counted so
/// far in grab mode `grab_mode`: a placed order ends the loop; a failed
/// check orders again at once, uncounted; a refusal goes as
/// `after_order_error` says.
pub fn order_loop_step(retry_count: &mut u32, grab_mode: u8, event: OrderEvent) -> (r: OrderStep)
    requires
        *old(retry_count) < u32::MAX,
    ensures
        event is Placed ==> r == OrderStep::Done(0, true, false) && *final(retry_count) == *old(retry_count),
        event is CheckFailed ==> r == OrderStep::Again(0, 0) && *final(retry_count) == *old(retry_count),
        event matches OrderEvent::Refused(code) ==> ({
            let (pause, outcome, next, settle) = order_retry_spec(code, *old(retry_count), grab_mode);
            &&& *final(retry_count) == next
            &&& outcome matches Some((a, b)) ==> r == OrderStep::Done(pause, a, b)
            &&& outcome is None ==> r == OrderStep::Again(pause, settle)
        }),
{
    match event {
        OrderEvent::Placed => OrderStep::Done(0, true, false),
        OrderEvent::CheckFailed => OrderStep::Again(0, 0),
        OrderEvent::Refused(code) => {
            let step = after_order_error(code, *retry_count, grab_mode);
            *retry_count = step.next_count;
            match step.outcome {
                Some((a, b)) => OrderStep::Done(step.pause_ms, a, b),
                None => OrderStep::Again(step.pause_ms, step.settle_ms),
            }
        },
    }
}

/// The result of one confirm-and-order round: the order loop's result
/// where the order was confirmed, (false, false) where confirming failed.
pub fn round_result(ordered: Option<(bool, bool)>) -> (r: (bool, bool))
    ensures
        ordered matches Some(o) ==> r == o,
        ordered is None ==> r == (false, false),
{
    match ordered {
        Some(o) => o,
        None => (false, false),
    }
}

/// Whether the next order is placed as a retry ("try again" button): from
/// the third failed order on.
pub fn needs_retry_click(retry_count: u32) -> (b: bool)
    ensures
        b == (retry_count >= 3),
{
    retry_count >= 3
}

/// How many failed token requests each grab mode allows: timed 5,
/// direct 10, snatching 5.
pub open spec fn token_retry_limit(grab_mode: u8) -> u32 {
    if grab_mode == 1 {
        10
    } else {
        5
    }
}

pub fn max_token_retry(grab_mode: u8) -> (n: u32)
    ensures
        n == token_retry_limit(grab_mode),
{
    if grab_mode == 1 {
        10
    } else {
        5
    }
}

/// Token errors that call for the human-verification challenge.
pub open spec fn needs_captcha(code: i32) -> bool {
    code == -401 || code == 401
}

pub fn is_captcha_code(code: i32) -> (b: bool)
    ensures
        b == needs_captcha(code),
{
    code == -401 || code == 401
}

/// What follows a failed token request (or failed challenge).
pub enum TokenStep {
    /// Wait a second and ask again.
    RetryAfterSecond,
    /// Stop the task with this message.
    GiveUp(String),
}

pub open spec fn token_failure_text(code: i32, message: Seq<char>) -> Seq<char> {
    "获取token失败，错误代码: "@ + decimal(code as int) + "，错误信息："@ + message
}

pub open spec fn captcha_failure_text(reason: Seq<char>) -> Seq<char> {
    "验证码处理失败，已达最大重试次数: "@ + reason
}

/// Counts a failed token request with error `code` and `message`; the task
/// stops once the mode's limit is reached.
pub fn after_token_error(retries: &mut u32, grab_mode: u8, code: i32, message: &str) -> (r: TokenStep)
    requires
        *old(retries) < u32::MAX,
    ensures
        *final(retries) == *old(retries) + 1,
        *final(retries) >= token_retry_limit(grab_mode) ==> (r matches TokenStep::GiveUp(m) && m@ == token_failure_text(code, message@)),
        *final(retries) < token_retry_limit(grab_mode) ==> r is RetryAfterSecond,
{
    *retries = *retries + 1;
    if *retries >= max_token_retry(grab_mode) {
        let mut m = String::from_str("获取token失败，错误代码: ");
        push_decimal(&mut m, code as i128);
        push_str(&mut m, "，错误信息：");
        push_str(&mut m, message);
        TokenStep::GiveUp(m)
    } else {
        TokenStep::RetryAfterSecond
    }
}

/// Counts a failed human-verification challenge.
pub fn after_captcha_failure(retries: &mut u32, grab_mode: u8, reason: &str) -> (r: TokenStep)
    requires
        *old(retries) < u32::MAX,
    ensures
        *final(retries) == *old(retries) + 1,
        *final(retries) >= token_retry_limit(grab_mode) ==> (r matches TokenStep::GiveUp(m) && m@ == captcha_failure_text(reason@)),
        *final(retries) < token_retry_limit(grab_mode) ==> r is RetryAfterSecond,
{
    *retries = *retries + 1;
    if *retries >= max_token_retry(grab_mode) {
        let mut m = String::from_str("验证码处理失败，已达最大重试次数: ");
        push_str(&mut m, reason);
        TokenStep::GiveUp(m)
    } else {
        TokenStep::RetryAfterSecond
    }
}

/// What follows one confirm-and-order round of a token.
#[derive(PartialEq, Eq, Structural, Clone, Copy, Debug)]
pub enum RoundStep {
    /// The task is over.
    Finish,
    /// Snatching mode: leave this screen and look at the others.
    NextScreen,
    /// Snatching mode: try the next ticket kind.
    NextTicket,
    /// Confirm the order again.
    Again,
    /// Timed and direct modes: stop with "确认订单失败，已达最大重试次数".
    GiveUp,
}

/// Rounds of confirming an order with one token.
pub open spec fn confirm_round_limit() -> u32 {
    4
}

pub open spec fn round_step_spec(grab_mode: u8, success: bool, retry_limit: bool, rounds: u32) -> RoundStep {
    if grab_mode == 0 && success && !retry_limit {
        RoundStep::Finish
    } else if grab_mode != 0 && success {
        RoundStep::Finish
    } else if grab_mode == 2 && retry_limit {
        RoundStep::NextScreen
    } else if rounds + 1 >= confirm_round_limit() {
        if grab_mode == 2 {
            RoundStep::NextTicket
        } else {
            RoundStep::GiveUp
        }
    } else {
        RoundStep::Again
    }
}

/// The step after a round that ended with `(success, retry_limit)`, after
/// `rounds` earlier rounds; counts the round where another may follow.
pub fn after_round(grab_mode: u8, success: bool, retry_limit: bool, rounds: &mut u32) -> (r: RoundStep)
    requires
        *old(rounds) < u32::MAX,
    ensures
        r == round_step_spec(grab_mode, success, retry_limit, *old(rounds)),
        r == RoundStep::Finish || r == RoundStep::NextScreen ==> *final(rounds) == *old(rounds),
        r != RoundStep::Finish && r != RoundStep::NextScreen ==> *final(rounds) == *old(rounds) + 1,
{
    if grab_mode == 0 && success && !retry_limit {
        return RoundStep::Finish;
    }
    if grab_mode != 0 && success {
        return RoundStep::Finish;
    }
    if grab_mode == 2 && retry_limit {
        return RoundStep::NextScreen;
    }
    *rounds = *rounds + 1;
    if *rounds >= 4 {
        if grab_mode == 2 {
            RoundStep::NextTicket
        } else {
            RoundStep::GiveUp
        }
    } else {
        RoundStep::Again
    }
}

/// The waits before a timed grab starts, `countdown` seconds ahead: 15 s
/// steps while more than 20 s are left, then 1 s steps while more than
/// 1.3 s are left, then 0.8 s.
pub open spec fn countdown_waits_spec(countdown: int) -> Seq<u32>
    decreases (if countdown > 0 { countdown } else { 0 }),
{
    if countdown <= 0 {
        Seq::empty()
    } else if countdown > 20 {
        seq![15000u32] + countdown_waits_spec(countdown - 15)
    } else if countdown > 1 {
        seq![1000u32] + countdown_tail(countdown - 1)
    } else {
        seq![800u32]
    }
}

/// The 1 s steps once at most 20 s are left.
pub open spec fn countdown_tail(countdown: int) -> Seq<u32>
    decreases (if countdown > 0 { countdown } else { 0 }),
{
    if countdown > 1 {
        seq![1000u32] + countdown_tail(countdown - 1)
    } else {
        seq![800u32]
    }
}

pub open spec fn total_wait(w: Seq<u32>) -> int
    decreases w.len(),
{
    if w.len() == 0 {
        0
    } else {
        w[0] + total_wait(w.drop_first())
    }
}

proof fn lemma_total_wait_cons(x: u32, w: Seq<u32>)
    ensures
        total_wait(seq![x] + w) == x + total_wait(w),
{
    assert((seq![x] + w).drop_first() =~= w);
}

proof fn lemma_countdown_tail_total(c: int)
    requires
        c >= 1,
    ensures
        total_wait(countdown_tail(c)) == 1000 * (c - 1) + 800,
    decreases c,
{
    if c > 1 {
        lemma_countdown_tail_total(c - 1);
        lemma_total_wait_cons(1000, countdown_tail(c - 1));
    } else {
        assert(total_wait(seq![800u32]) == 800) by {
            assert(seq![800u32].drop_first() =~= Seq::<u32>::empty());
            reveal_with_fuel(total_wait, 2);
        }
    }
}

/// A timed grab that starts `countdown >= 1` seconds ahead waits
/// `countdown - 1` whole seconds and 0.8 s in all.
pub proof fn lemma_countdown_total(countdown: int)
    requires
        countdown >= 1,
    ensures
        total_wait(countdown_waits_spec(countdown)) == 1000 * (countdown - 1) + 800,
    decreases countdown,
{
    if countdown > 20 {
        lemma_countdown_total(countdown - 15);
        lemma_total_wait_cons(15000, countdown_waits_spec(countdown - 15));
    } else if countdown > 1 {
        lemma_countdown_tail_total(countdown - 1);
        lemma_total_wait_cons(1000, countdown_tail(countdown - 1));
    } else {
        assert(total_wait(seq![800u32]) == 800) by {
            assert(seq![800u32].drop_first() =~= Seq::<u32>::empty());
            reveal_with_fuel(total_wait, 2);
        }
    }
}

/// The waits, in milliseconds, before a timed grab `countdown` seconds ahead.
pub fn countdown_waits(countdown: i128) -> (w: Vec<u32>)
    ensures
        w@ == countdown_waits_spec(countdown as int),
{
    let mut w: Vec<u32> = Vec::new();
    if countdown <= 0 {
        assert(w@ =~= countdown_waits_spec(countdown as int));
        return w;
    }
    let mut c = countdown;
    while c > 20
        invariant
            c >= 1,
            countdown_waits_spec(countdown as int) == w@ + countdown_waits_spec(c as int),
        decreases c,
    {
        w.push(15000);
        assert(countdown_waits_spec(countdown as int) =~= w@ + countdown_waits_spec((c - 15) as int));
        c = c - 15;
    }
    if c > 1 {
        w.push(1000);
        assert(countdown_waits_spec(countdown as int) =~= w@ + countdown_tail((c - 1) as int));
        c = c - 1;
    } else {
        w.push(800);
        assert(countdown_waits_spec(countdown as int) =~= w@);
        return w;
    }
    while c > 1
        invariant
            c >= 1,
            countdown_waits_spec(countdown as int) == w@ + countdown_tail(c as int),
        decreases c,
    {
        w.push(1000);
        assert(countdown_waits_spec(countdown as int) =~= w@ + countdown_tail((c - 1) as int));
        c = c - 1;
    }
    w.push(800);
    assert(countdown_waits_spec(countdown as int) =~= w@);
    w
}

/// `n / 100` rounded toward zero, as integer division does.
pub open spec fn hundredths_spec(n: int) -> int {
    if n >= 0 {
        n / 100
    } else {
        -((-n) / 100)
    }
}

/// The notification of a successful order: its title, its text and the
/// link that opens the order in the app. `price` is the price of one
/// ticket in cents; the text asks for `price * count / 100` yuan.
pub open spec fn success_notice_spec(
    project_name: Seq<char>,
    screen_name: Seq<char>,
    ticket_name: Seq<char>,
    pay_url: Seq<char>,
    price: int,
    count: int,
    order_id: int,
) -> (Seq<char>, Seq<char>, Seq<char>) {
    (
        "恭喜"@ + project_name + "抢票成功！"@,
        "抢票成功！\n项目："@ + project_name + "\n场次："@ + screen_name + "\n票类型："@ + ticket_name
            + "\n支付链接："@ + pay_url + "\n请尽快支付"@ + decimal(hundredths_spec(price * count))
            + "元，以免支付超时导致票丢失\n如果觉得本项目好用，可前往https://github.com/biliticket/bili_ticket_rush 帮我们点个小星星star收藏本项目以防走丢\n本项目完全免费开源，仅供学习使用，开发组不承担使用本软件造成的一切后果"@,
        "bilibili://mall/web?url=https://mall.bilibili.com/neul-next/ticket/orderDetail.html?order_id="@
            + decimal(order_id),
    )
}

pub fn success_notice(
    project_name: &str,
    screen_name: &str,
    ticket_name: &str,
    pay_url: &str,
    price: i64,
    count: i32,
    order_id: i64,
) -> (r: (String, String, String))
    requires
        i64::MIN <= price * count <= i64::MAX,
    ensures
        (r.0@, r.1@, r.2@) == success_notice_spec(
            project_name@,
            screen_name@,
            ticket_name@,
            pay_url@,
            price as int,
            count as int,
            order_id as int,
        ),
{
    let total: i128 = price as i128 * count as i128;
    let yuan: i128 = if total >= 0 {
        total / 100
    } else {
        -((-total) / 100)
    };
    let mut title = String::from_str("恭喜");
    push_str(&mut title, project_name);
    push_str(&mut title, "抢票成功！");
    let mut text = String::from_str("抢票成功！\n项目：");
    push_str(&mut text, project_name);
    push_str(&mut text, "\n场次：");
    push_str(&mut text, screen_name);
    push_str(&mut text, "\n票类型：");
    push_str(&mut text, ticket_name);
    push_str(&mut text, "\n支付链接：");
    push_str(&mut text, pay_url);
    push_str(&mut text, "\n请尽快支付");
    push_decimal(&mut text, yuan);
    push_str(
        &mut text,
        "元，以免支付超时导致票丢失\n如果觉得本项目好用，可前往https://github.com/biliticket/bili_ticket_rush 帮我们点个小星星star收藏本项目以防走丢\n本项目完全免费开源，仅供学习使用，开发组不承担使用本软件造成的一切后果",
    );
    let mut jump = String::from_str(
        "bilibili://mall/web?url=https://mall.bilibili.com/neul-next/ticket/orderDetail.html?order_id=",
    );
    push_decimal(&mut jump, order_id as i128);
    (title, text, jump)
}

/// `s.to_lowercase()`: Unicode lower case, as `std` maps it.
pub uninterp spec fn lowercase(s: Seq<char>) -> Seq<char>;

/// `str::to_lowercase`: the named result `lowercase`.
#[verifier::external_body]
fn to_lower(s: &str) -> (r: String)
    ensures
        r@ == lowercase(s@),
{
    s.to_lowercase()
}

/// Whether `text`, in lower case, contains the lower case of `word`.
pub open spec fn word_hit(text: Seq<char>, word: Seq<char>) -> bool {
    contains_seq(lowercase(text), lowercase(word))
}

pub open spec fn mentions_any(text: Seq<char>, words: Seq<String>) -> bool {
    exists|i: int| 0 <= i < words.len() && #[trigger] word_hit(text, words[i]@)
}

fn mentions(text: &str, words: &Vec<String>) -> (b: bool)
    ensures
        b == mentions_any(text@, words@),
{
    let lower = to_lower(text);
    let mut i: usize = 0;
    while i < words.len()
        invariant
            i <= words@.len(),
            lower@ == lowercase(text@),
            forall|j: int| 0 <= j < i ==> !#[trigger] word_hit(text@, words@[j]@),
        decreases words.len() - i,
    {
        let w = to_lower(words[i].as_str());
        if contains_str(lower.as_str(), w.as_str()) {
            assert(word_hit(text@, words@[i as int]@));
            return true;
        }
        i = i + 1;
    }
    false
}

/// Whether the snatching mode passes over a ticket kind: where skip words
/// are set and one of them, ignoring case, occurs in the screen's name or
/// in the ticket's description (a missing one counting as empty).
pub fn skip_ticket(screen_name: &Option<String>, desc: &Option<String>, skip_words: &Option<Vec<String>>) -> (b: bool)
    ensures
        b == (skip_words matches Some(ws) && (mentions_any(
            match screen_name {
                Some(n) => n@,
                None => ""@,
            },
            ws@,
        ) || mentions_any(
            match desc {
                Some(d) => d@,
                None => ""@,
            },
            ws@,
        ))),
{
    match skip_words {
        None => false,
        Some(ws) => {
            let name = match screen_name {
                Some(n) => n.as_str(),
                None => "",
            };
            if mentions(name, ws) {
                return true;
            }
            let d = match desc {
                Some(d) => d.as_str(),
                None => "",
            };
            mentions(d, ws)
        },
    }
}

/// How each order of an attempt is placed: from the phone page, without
/// the quick clicks, on the default screen, as a retry ("try again"
/// button) from the third failed order on.
pub struct OrderArgs {
    pub is_mobile: bool,
    pub need_retry: bool,
    pub fast_mode: bool,
    pub screen_size: Option<(u32, u32)>,
}

pub open spec fn order_args_spec(retry_count: u32) -> OrderArgs {
    OrderArgs { is_mobile: true, need_retry: retry_count >= 3, fast_mode: false, screen_size: None }
}

/// The arguments of the order placed after `retry_count` failed ones.
pub fn order_args(retry_count: u32) -> (a: OrderArgs)
    ensures
        a == order_args_spec(retry_count),
{
    OrderArgs { is_mobile: true, need_retry: needs_retry_click(retry_count), fast_mode: false, screen_size: None }
}

/// Whether the snatching mode can work on a project of real-name kind
/// `id_bind`: only where buyers are bound by name (one per order or per ticket).
pub fn snatch_supported(id_bind: i64) -> (b: bool)
    ensures
        b == (id_bind == 1 || id_bind == 2),
{
    id_bind == 1 || id_bind == 2
}

/// Whether the snatching mode tries a ticket kind: one that can be clicked
/// (a missing flag counting as not) and that `skip_ticket` does not pass over.
pub fn snatch_candidate(
    clickable: Option<bool>,
    screen_name: &Option<String>,
    desc: &Option<String>,
    skip_words: &Option<Vec<String>>,
) -> (b: bool)
    ensures
        b == (clickable == Some(true) && !(skip_words matches Some(ws) && (mentions_any(
            match screen_name {
                Some(n) => n@,
                None => ""@,
            },
            ws@,
        ) || mentions_any(
            match desc {
                Some(d) => d@,
                None => ""@,
            },
            ws@,
        )))),
{
    match clickable {
        Some(true) => !skip_ticket(screen_name, desc, skip_words),
        _ => false,
    }
}

/// Failed token requests, `count` of them already counted, until the task
/// gives up when every request fails without a challenge; `None` where
/// that takes more than `fuel`.
pub open spec fn token_failures_to_give_up(grab_mode: u8, count: int, fuel: nat) -> Option<nat>
    decreases fuel,
{
    if fuel == 0 {
        None
    } else if count + 1 >= token_retry_limit(grab_mode) {
        Some(1)
    } else {
        match token_failures_to_give_up(grab_mode, count + 1, (fuel - 1) as nat) {
            Some(k) => Some(k + 1),
            None => None,
        }
    }
}

proof fn lemma_token_failures(grab_mode: u8, count: int, fuel: nat)
    requires
        0 <= count < token_retry_limit(grab_mode),
        fuel >= token_retry_limit(grab_mode) - count,
    ensures
        token_failures_to_give_up(grab_mode, count, fuel) == Some((token_retry_limit(grab_mode) - count) as nat),
    decreases fuel,
{
    if count + 1 < token_retry_limit(grab_mode) {
        lemma_token_failures(grab_mode, count + 1, (fuel - 1) as nat);
    }
}

/// A grab task whose token requests keep failing without a challenge,
/// counted by `after_token_error` from zero, gives up at exactly the
/// mode's limit-th failure: the tenth in the direct mode, the fifth in the
/// timed and snatching modes.
pub proof fn law_token_failures_give_up_at_limit(grab_mode: u8)
    ensures
        token_failures_to_give_up(grab_mode, 0, 100) == Some(token_retry_limit(grab_mode) as nat),
        token_retry_limit(grab_mode) == (if grab_mode == 1 { 10u32 } else { 5u32 }),
{
    lemma_token_failures(grab_mode, 0, 100);
}

/// Confirm-and-order rounds, `rounds` of them already counted, until the
/// loop of one token ends when every round fails short of any limit, with
/// the step it ends on; `None` where that takes more than `fuel`.
pub open spec fn failed_rounds_to_end(grab_mode: u8, rounds: int, fuel: nat) -> Option<(nat, RoundStep)>
    decreases fuel,
{
    if fuel == 0 || rounds < 0 || rounds >= u32::MAX {
        None
    } else {
        let step = round_step_spec(grab_mode, false, false, rounds as u32);
        if step != RoundStep::Again {
            Some((1, step))
        } else {
            match failed_rounds_to_end(grab_mode, rounds + 1, (fuel - 1) as nat) {
                Some((k, last)) => Some((k + 1, last)),
                None => None,
            }
        }
    }
}

proof fn lemma_failed_rounds(grab_mode: u8, rounds: int, fuel: nat)
    requires
        0 <= rounds < confirm_round_limit(),
        fuel >= confirm_round_limit() - rounds,
    ensures
        failed_rounds_to_end(grab_mode, rounds, fuel) == Some((
            (confirm_round_limit() - rounds) as nat,
            if grab_mode == 2 { RoundStep::NextTicket } else { RoundStep::GiveUp },
        )),
    decreases fuel,
{
    if rounds + 1 < confirm_round_limit() {
        lemma_failed_rounds(grab_mode, rounds + 1, (fuel - 1) as nat);
    }
}

/// One token is tried in at most four failing rounds: the fourth gives up
/// in the timed and direct modes and moves to the next ticket kind in the
/// snatching mode.
pub proof fn law_four_failed_rounds_end_a_token(grab_mode: u8)
    ensures
        failed_rounds_to_end(grab_mode, 0, 100) == Some((
            4nat,
            if grab_mode == 2 { RoundStep::NextTicket } else { RoundStep::GiveUp },
        )),
{
    lemma_failed_rounds(grab_mode, 0, 100);
}

/// Orders, `count` failures already counted, until the order loop ends
/// when every order is refused with `code`, with the loop's result;
/// `None` where that takes more than `fuel`.
pub open spec fn refusals_to_end(code: i32, count: int, grab_mode: u8, fuel: nat) -> Option<(nat, (bool, bool))>
    decreases fuel,
{
    if fuel == 0 || count < 0 || count >= u32::MAX {
        None
    } else {
        let (pause, outcome, next, settle) = order_retry_spec(code, count as u32, grab_mode);
        match outcome {
            Some(o) => Some((1, o)),
            None => match refusals_to_end(code, next, grab_mode, (fuel - 1) as nat) {
                Some((k, o)) => Some((k + 1, o)),
                None => None,
            },
        }
    }
}

proof fn lemma_snatch_refusals(code: i32, count: int, fuel: nat)
    requires
        !is_final_code(code),
        !is_token_expired_code(code),
        0 <= count < snatch_order_limit(),
        fuel >= snatch_order_limit() - count,
    ensures
        refusals_to_end(code, count, 2, fuel) == Some(((snatch_order_limit() - count) as nat, (false, true))),
    decreases fuel,
{
    if count + 1 < snatch_order_limit() {
        lemma_snatch_refusals(code, count + 1, (fuel - 1) as nat);
    }
}

/// In the snatching mode, orders refused with a code that neither ends
/// the attempt nor calls for a new token are placed exactly thirty times,
/// the first three plainly and the rest as retries, all from the phone page
/// without quick clicks or a screen size; the loop then ends as not
/// finished with its limit reached.
pub proof fn law_snatch_orders_end_after_thirty(code: i32)
    requires
        !is_final_code(code),
        !is_token_expired_code(code),
    ensures
        refusals_to_end(code, 0, 2, 100) == Some((30nat, (false, true))),
        forall|k: u32| #![trigger order_args_spec(k)] k < 30 ==> {
            let a = order_args_spec(k);
            &&& a.is_mobile && !a.fast_mode && a.screen_size is None
            &&& a.need_retry == (k >= 3)
        },
{
    lemma_snatch_refusals(code, 0, 100);
}

} // verus!
