//! The ticket service's endpoints: what each request carries and what each
//! reply means. Sending is left to the caller, who hands back an
//! `HttpReply`.

use vstd::prelude::*;
use crate::json::{
    JsonValue, JsonView, json_view, fields_view, push_field, str_value, json_int, json_str, json_raw,
    json_error, json_keys, or_default, int_or_default, str_or, int_or, raw_at, parse_error,
};
use crate::text::{push_str, push_decimal, decimal, parse_i64, parse_i64_spec};
use crate::gen_cp::{CTokenGenerator, ctoken_text, counters_ok, submitted};

verus! {

/// What came back for one HTTP request.
pub enum HttpReply {
    /// Sending the request failed: the error as displayed.
    Failed(String),
    /// A response whose body could not be read (or, where the caller reads
    /// it as JSON, decoded): its status code, the status as displayed, the
    /// error as displayed.
    Unread(u16, String, String),
    /// A response: its status code, the status as displayed, the body text.
    Received(u16, String, String),
}

/// Why a purchase token was refused, with the human-verification
/// parameters where the service asks for a challenge.
pub struct TokenRiskParam {
    pub code: i32,
    pub message: String,
    pub mid: Option<String>,
    pub decision_type: Option<String>,
    pub buvid: Option<String>,
    pub ip: Option<String>,
    pub scene: Option<String>,
    pub ua: Option<String>,
    pub v_voucher: Option<String>,
    /// The challenge parameters as JSON text.
    pub risk_param: Option<String>,
}

/// A numeric id given as text, as `parse::<i64>().unwrap_or(0)` reads it.
pub open spec fn id_or_zero(s: Seq<char>) -> int {
    match parse_i64_spec(s) {
        Some(v) => v as int,
        None => 0,
    }
}

pub fn id_number(s: &str) -> (n: i64)
    ensures
        n == id_or_zero(s@),
{
    match parse_i64(s) {
        Some(v) => v,
        None => 0,
    }
}

/// Fields of a token (order preparation) request.
pub open spec fn token_body_spec(
    count: int,
    screen_id: Seq<char>,
    project_id: Seq<char>,
    ticket_id: Seq<char>,
    ctoken: Seq<char>,
) -> Seq<(Seq<char>, JsonView)> {
    seq![
        ("count"@, JsonView::Int(count)),
        ("screen_id"@, JsonView::Int(id_or_zero(screen_id))),
        ("order_type"@, JsonView::Int(1)),
        ("project_id"@, JsonView::Int(id_or_zero(project_id))),
        ("sku_id"@, JsonView::Int(id_or_zero(ticket_id))),
        ("token"@, JsonView::Str(ctoken)),
        ("newRisk"@, JsonView::Bool(true)),
        ("requestSource"@, JsonView::Str("neul-next"@)),
    ]
}

pub open spec fn token_url_spec(project_id: Seq<char>) -> Seq<char> {
    "https://show.bilibili.com/api/ticket/order/prepare?project_id="@ + project_id
}

/// The fields of a token request for `count` tickets of kind `ticket_id`,
/// carrying the click token `ctoken` (empty for ordinary projects).
pub fn token_body(count: i16, screen_id: &str, project_id: &str, ticket_id: &str, ctoken: &str) -> (b: Vec<(String, JsonValue)>)
    ensures
        fields_view(b@) == token_body_spec(count as int, screen_id@, project_id@, ticket_id@, ctoken@),
{
    let mut b: Vec<(String, JsonValue)> = Vec::new();
    assert(fields_view(b@) =~= Seq::<(Seq<char>, JsonView)>::empty());
    push_field(&mut b, "count", JsonValue::Int(count as i64));
    push_field(&mut b, "screen_id", JsonValue::Int(id_number(screen_id)));
    push_field(&mut b, "order_type", JsonValue::Int(1));
    push_field(&mut b, "project_id", JsonValue::Int(id_number(project_id)));
    push_field(&mut b, "sku_id", JsonValue::Int(id_number(ticket_id)));
    push_field(&mut b, "token", str_value(ctoken));
    push_field(&mut b, "newRisk", JsonValue::Bool(true));
    push_field(&mut b, "requestSource", str_value("neul-next"));
    assert(fields_view(b@) =~= token_body_spec(count as int, screen_id@, project_id@, ticket_id@, ctoken@));
    b
}

/// The token request: its URL and fields. A hot project's request carries
/// a fresh click token of `cpdd`; an ordinary one an empty token, and
/// `cpdd` is left as it is.
pub fn token_request(
    cpdd: &mut CTokenGenerator,
    project_id: &str,
    screen_id: &str,
    ticket_id: &str,
    count: i16,
    is_hot: bool,
) -> (r: (String, Vec<(String, JsonValue)>))
    ensures
        r.0@ == token_url_spec(project_id@),
        is_hot ==> fields_view(r.1@) == token_body_spec(
            count as int,
            screen_id@,
            project_id@,
            ticket_id@,
            ctoken_text(final(cpdd).values()),
        ),
        is_hot ==> final(cpdd).timer_base() == old(cpdd).timer_base(),
        is_hot ==> exists|elapsed: i32, touches: i32, visibility: i32, windows: i32|
            counters_ok(false, touches, visibility, windows) && final(cpdd).values() == #[trigger] submitted(
                old(cpdd).values(),
                old(cpdd).timer_base(),
                false,
                elapsed,
                touches,
                visibility,
                windows,
            ),
        !is_hot ==> fields_view(r.1@) == token_body_spec(count as int, screen_id@, project_id@, ticket_id@, ""@),
        !is_hot ==> *final(cpdd) == *old(cpdd),
{
    let mut url = String::from_str("https://show.bilibili.com/api/ticket/order/prepare?project_id=");
    push_str(&mut url, project_id);
    if is_hot {
        let ctoken = cpdd.generate_ctoken(false);
        (url, token_body(count, screen_id, project_id, ticket_id, ctoken.as_str()))
    } else {
        (url, token_body(count, screen_id, project_id, ticket_id, ""))
    }
}

/// The code a reply reports: `errno` where present, else `code`, else -1.
pub open spec fn reply_code(text: Seq<char>) -> int {
    let errno = int_or_default(text, "/errno"@, -1);
    if errno != -1 {
        errno
    } else {
        int_or_default(text, "/code"@, -1)
    }
}

pub open spec fn opt_text(o: Option<String>) -> Option<Seq<char>> {
    match o {
        Some(s) => Some(s@),
        None => None,
    }
}

pub open spec fn has_text(o: Option<String>, s: Seq<char>) -> bool {
    o.is_some() && o.unwrap()@ == s
}

/// A refusal that carries no challenge parameters.
pub open spec fn plain_refusal(e: TokenRiskParam, code: i32, message: Seq<char>) -> bool {
    &&& e.code == code
    &&& e.message@ == message
    &&& e.mid is None
    &&& e.decision_type is None
    &&& e.buvid is None
    &&& e.ip is None
    &&& e.scene is None
    &&& e.ua is None
    &&& e.v_voucher is None
    &&& e.risk_param is None
}

/// A refusal that asks for a challenge, with the parameters of reply `text`.
pub open spec fn challenge_refusal(e: TokenRiskParam, text: Seq<char>) -> bool {
    &&& e.code == (reply_code(text) as i64) as i32
    &&& e.message@ == or_default(json_str(text, "/msg"@), "未知错误"@)
    &&& has_text(e.mid, or_default(json_str(text, "/data/ga_data/riskParams/mid"@), ""@))
    &&& has_text(e.decision_type, or_default(json_str(text, "/data/ga_data/riskParams/decision_type"@), ""@))
    &&& has_text(e.buvid, or_default(json_str(text, "/data/ga_data/riskParams/buvid"@), ""@))
    &&& has_text(e.ip, or_default(json_str(text, "/data/ga_data/riskParams/ip"@), ""@))
    &&& has_text(e.scene, or_default(json_str(text, "/data/ga_data/riskParams/scene"@), ""@))
    &&& has_text(e.ua, or_default(json_str(text, "/data/ga_data/riskParams/ua"@), ""@))
    &&& has_text(e.v_voucher, or_default(json_str(text, "/data/ga_data/riskParams/v_voucher"@), ""@))
    &&& has_text(e.risk_param, or_default(json_raw(text, "/data/ga_data/riskParams"@), "null"@))
}

/// Whether an HTTP status counts as success (2xx).
pub open spec fn is_success(status: u16) -> bool {
    200 <= status < 300
}

/// What the reply `text` of a received token request says, for a hot
/// project or not.
pub open spec fn token_text_ok(text: Seq<char>, is_hot: bool, r: Result<(String, String), TokenRiskParam>) -> bool {
    if json_error(text) is Some {
        r matches Err(e) && plain_refusal(e, 999, json_error(text).unwrap())
    } else if reply_code(text) == 0 {
        r matches Ok(t) && t.0@ == or_default(json_str(text, "/data/token"@), ""@) && t.1@ == (if is_hot {
            or_default(json_str(text, "/data/ptoken"@), ""@)
        } else {
            ""@
        })
    } else if reply_code(text) == -401 || reply_code(text) == 401 {
        r matches Err(e) && challenge_refusal(e, text)
    } else {
        r matches Err(e) && plain_refusal(
            e,
            (reply_code(text) as i64) as i32,
            or_default(json_str(text, "/msg"@), "未知错误"@),
        )
    }
}

/// The token (and, for hot projects, the purchase token) that a token
/// request obtained, or why none was given: a failed request or an
/// unexpected status is code 999 with the error or status; a code of
/// ±401 asks for a challenge.
pub fn read_token_reply(reply: &HttpReply, is_hot: bool) -> (r: Result<(String, String), TokenRiskParam>)
    ensures
        reply matches HttpReply::Failed(e) ==> (r matches Err(p) && plain_refusal(p, 999, e@)),
        reply matches HttpReply::Unread(status, shown, e) ==> (r matches Err(p) && plain_refusal(
            p,
            999,
            if is_success(*status) {
                e@
            } else {
                shown@
            },
        )),
        reply matches HttpReply::Received(status, shown, text) ==> (if is_success(*status) {
            token_text_ok(text@, is_hot, r)
        } else {
            r matches Err(p) && plain_refusal(p, 999, shown@)
        }),
{
    match reply {
        HttpReply::Failed(e) => Err(refusal(999, e.clone())),
        HttpReply::Unread(status, shown, e) => {
            if !(200 <= *status && *status < 300) {
                Err(refusal(999, shown.clone()))
            } else {
                Err(refusal(999, e.clone()))
            }
        },
        HttpReply::Received(status, shown, text) => {
            if !(200 <= *status && *status < 300) {
                return Err(refusal(999, shown.clone()));
            }
            read_token_text(text.as_str(), is_hot)
        },
    }
}

fn refusal(code: i32, message: String) -> (e: TokenRiskParam)
    ensures
        plain_refusal(e, code, message@),
{
    TokenRiskParam {
        code,
        message,
        mid: None,
        decision_type: None,
        buvid: None,
        ip: None,
        scene: None,
        ua: None,
        v_voucher: None,
        risk_param: None,
    }
}

/// The code of reply `text`.
pub fn code_of(text: &str) -> (c: i64)
    ensures
        c == reply_code(text@),
{
    let errno = int_or(text, "/errno", -1);
    if errno != -1 {
        errno
    } else {
        int_or(text, "/code", -1)
    }
}

fn read_token_text(text: &str, is_hot: bool) -> (r: Result<(String, String), TokenRiskParam>)
    ensures
        token_text_ok(text@, is_hot, r),
{
    if let Some(e) = parse_error(text) {
        return Err(refusal(999, e));
    }
    let code = code_of(text);
    let msg = str_or(text, "/msg", "未知错误");
    if code == 0 {
        let token = str_or(text, "/data/token", "");
        if is_hot {
            let ptoken = str_or(text, "/data/ptoken", "");
            return Ok((token, ptoken));
        }
        return Ok((token, String::from_str("")));
    }
    if code == -401 || code == 401 {
        let raw = match raw_at(text, "/data/ga_data/riskParams") {
            Some(v) => v,
            None => String::from_str("null"),
        };
        return Err(TokenRiskParam {
            code: code as i32,
            message: msg,
            mid: Some(str_or(text, "/data/ga_data/riskParams/mid", "")),
            decision_type: Some(str_or(text, "/data/ga_data/riskParams/decision_type", "")),
            buvid: Some(str_or(text, "/data/ga_data/riskParams/buvid", "")),
            ip: Some(str_or(text, "/data/ga_data/riskParams/ip", "")),
            scene: Some(str_or(text, "/data/ga_data/riskParams/scene", "")),
            ua: Some(str_or(text, "/data/ga_data/riskParams/ua", "")),
            v_voucher: Some(str_or(text, "/data/ga_data/riskParams/v_voucher", "")),
            risk_param: Some(raw),
        });
    }
    Err(refusal(code as i32, msg))
}

/// Where a simulated click lands.
#[derive(Clone, Copy, Debug, PartialEq, Eq, Structural)]
pub enum ClickPositionType {
    /// The confirm button of the PC page.
    PcConfirm,
    /// The confirm button of the phone page.
    MobileConfirm,
    /// The phone page's "try again" button, mid-screen.
    RetryButton,
}

pub open spec fn position_type_spec(need_retry: bool, is_mobile: bool) -> ClickPositionType {
    if need_retry && is_mobile {
        ClickPositionType::RetryButton
    } else if is_mobile {
        ClickPositionType::MobileConfirm
    } else {
        ClickPositionType::PcConfirm
    }
}

/// The button an order clicks: "try again" on a phone once retrying, else
/// the confirm button of the phone or PC page.
pub fn position_type(need_retry: bool, is_mobile: bool) -> (t: ClickPositionType)
    ensures
        t == position_type_spec(need_retry, is_mobile),
{
    if need_retry && is_mobile {
        ClickPositionType::RetryButton
    } else if is_mobile {
        ClickPositionType::MobileConfirm
    } else {
        ClickPositionType::PcConfirm
    }
}

pub open spec fn min_u32(a: u32, b: u32) -> u32 {
    if a < b {
        a
    } else {
        b
    }
}

/// How far a click may stray from its base point on a screen `width`
/// pixels wide: 10 on the PC page, a quarter of `min(width, 20)` on the
/// phone's confirm button and of `min(width, 30)` on its "try again" button.
pub open spec fn offset_range_spec(t: ClickPositionType, width: u32) -> int {
    match t {
        ClickPositionType::PcConfirm => 10,
        ClickPositionType::MobileConfirm => min_u32(width, 20) as int / 4,
        ClickPositionType::RetryButton => min_u32(width, 30) as int / 4,
    }
}

pub fn offset_range(t: ClickPositionType, width: u32) -> (r: i32)
    ensures
        r == offset_range_spec(t, width),
        0 <= r <= 10,
{
    match t {
        ClickPositionType::PcConfirm => 10,
        ClickPositionType::MobileConfirm => {
            let w: u32 = if width < 20 {
                width
            } else {
                20
            };
            (w / 4) as i32
        },
        ClickPositionType::RetryButton => {
            let w: u32 = if width < 30 {
                width
            } else {
                30
            };
            (w / 4) as i32
        },
    }
}

/// A simulated click: where, when the pointer went down (`origin`) and
/// when the order is sent (`now`), in milliseconds since the epoch.
#[derive(Clone, Copy, Debug, PartialEq, Eq, Structural)]
pub struct ClickPosition {
    pub x: i32,
    pub y: i32,
    pub origin: i64,
    pub now: i64,
}

/// The base point of a click: fixed on the PC page, `mobile_base` on a phone.
pub open spec fn click_base(t: ClickPositionType, mobile_base: (i32, i32)) -> (int, int) {
    match t {
        ClickPositionType::PcConfirm => (1131, 636),
        _ => (mobile_base.0 as int, mobile_base.1 as int),
    }
}

/// Whether `c` is a click of kind `t` at time `now_ms`: within the offset
/// range of its base point, pressed 0.8 to 4.6 s before in fast mode and
/// 4 to 12 s before otherwise.
pub open spec fn click_ok(
    c: ClickPosition,
    t: ClickPositionType,
    fast_mode: bool,
    width: u32,
    mobile_base: (i32, i32),
    now_ms: i64,
) -> bool {
    let (bx, by) = click_base(t, mobile_base);
    let r = offset_range_spec(t, width);
    let delay = now_ms - c.origin;
    &&& bx - r <= c.x <= bx + r
    &&& by - r <= c.y <= by + r
    &&& c.now == now_ms
    &&& fast_mode ==> 800 <= delay < 4600
    &&& !fast_mode ==> 4000 <= delay < 12000
}

/// A random click of kind `position_type` at time `now_ms` on a screen
/// `screen_width` pixels wide (1080 where not given). A phone's base point
/// `mobile_base` is drawn by the caller.
pub fn click_position(
    position_type: ClickPositionType,
    fast_mode: bool,
    screen_width: Option<u32>,
    mobile_base: (i32, i32),
    now_ms: i64,
) -> (c: ClickPosition)
    requires
        -0x4000_0000 <= mobile_base.0 <= 0x4000_0000,
        -0x4000_0000 <= mobile_base.1 <= 0x4000_0000,
        now_ms >= 12000,
    ensures
        click_ok(
            c,
            position_type,
            fast_mode,
            match screen_width {
                Some(w) => w,
                None => 1080,
            },
            mobile_base,
            now_ms,
        ),
{
    let width: u32 = match screen_width {
        Some(w) => w,
        None => 1080,
    };
    let (base_x, base_y): (i32, i32) = match position_type {
        ClickPositionType::PcConfirm => (1131, 636),
        _ => mobile_base,
    };
    let range = offset_range(position_type, width);
    let offset_x = crate::outside::random_i32_in(-range, range + 1);
    let offset_y = crate::outside::random_i32_in(-range, range + 1);
    let delay: u32 = if fast_mode {
        crate::outside::random_u32_in(800, 4600)
    } else {
        crate::outside::random_u32_in(4000, 12000)
    };
    ClickPosition { x: base_x + offset_x, y: base_y + offset_y, origin: now_ms - delay as i64, now: now_ms }
}

pub open spec fn click_view(c: ClickPosition) -> JsonView {
    JsonView::Object(
        seq![
            ("x"@, JsonView::Int(c.x as int)),
            ("y"@, JsonView::Int(c.y as int)),
            ("origin"@, JsonView::Int(c.origin as int)),
            ("now"@, JsonView::Int(c.now as int)),
        ],
    )
}

/// The click as the JSON object an order carries.
pub fn click_json(c: &ClickPosition) -> (v: JsonValue)
    ensures
        json_view(v) == click_view(*c),
{
    let mut fs: Vec<(String, JsonValue)> = Vec::new();
    assert(fields_view(fs@) =~= Seq::<(Seq<char>, JsonView)>::empty());
    push_field(&mut fs, "x", JsonValue::Int(c.x as i64));
    push_field(&mut fs, "y", JsonValue::Int(c.y as i64));
    push_field(&mut fs, "origin", JsonValue::Int(c.origin));
    push_field(&mut fs, "now", JsonValue::Int(c.now));
    let ghost fv = fields_view(fs@);
    assert(fv =~= seq![
        ("x"@, JsonView::Int(c.x as int)),
        ("y"@, JsonView::Int(c.y as int)),
        ("origin"@, JsonView::Int(c.origin as int)),
        ("now"@, JsonView::Int(c.now as int)),
    ]);
    JsonValue::Object(fs)
}

/// `s` with every `c` taken out.
pub open spec fn without_char(s: Seq<char>, c: char) -> Seq<char>
    decreases s.len(),
{
    if s.len() == 0 {
        s
    } else if s.last() == c {
        without_char(s.drop_last(), c)
    } else {
        without_char(s.drop_last(), c).push(s.last())
    }
}

/// `s.replace(c, "")`.
pub fn remove_char(s: &str, c: char) -> (r: String)
    ensures
        r@ == without_char(s@, c),
{
    let v = crate::text::chars_of(s);
    let mut r = String::new();
    let mut i: usize = 0;
    assert(v@.subrange(0, 0) =~= Seq::<char>::empty());
    while i < v.len()
        invariant
            i <= v@.len(),
            v@ == s@,
            r@ == without_char(v@.subrange(0, i as int), c),
        decreases v.len() - i,
    {
        assert(v@.subrange(0, i + 1).drop_last() =~= v@.subrange(0, i as int));
        if v[i] != c {
            crate::text::push_char(&mut r, v[i]);
        }
        i = i + 1;
    }
    assert(v@.subrange(0, v@.len() as int) =~= v@);
    r
}

pub open spec fn order_url_spec(project_id: Seq<char>, ptoken: Seq<char>, is_hot: bool) -> Seq<char> {
    if is_hot {
        "https://show.bilibili.com/api/ticket/order/createV2?project_id="@ + project_id + "&ptoken="@
            + without_char(ptoken, '=')
    } else {
        "https://show.bilibili.com/api/ticket/order/createV2?project_id="@ + project_id
    }
}

/// The value of cookie `k`, where there is one.
pub open spec fn cookie_value(m: Map<Seq<char>, Seq<char>>, k: Seq<char>) -> Option<Seq<char>> {
    if m.contains_key(k) {
        Some(m[k])
    } else {
        None
    }
}

pub open spec fn risk_header_spec(m: Map<Seq<char>, Seq<char>>) -> Seq<char> {
    "platform/h5 uid/"@ + or_default(cookie_value(m, "DedeUserID"@), ""@) + " deviceId/"@ + or_default(
        cookie_value(m, "buvid3"@),
        ""@,
    )
}

/// What an order is for: the screen, the chosen ticket kind, whether the
/// project binds buyers to real names (0 none, 1 and 2 bound) and, for
/// one that does not, the buyer's name and phone number.
#[derive(Clone, Debug)]
pub struct TicketChoice {
    pub screen_id: String,
    pub select_ticket_id: Option<String>,
    pub id_bind: i64,
    pub no_bind_buyer: Option<(String, String)>,
}

/// An order as it is sent.
pub struct OrderRequest {
    pub url: String,
    /// Value of the `X-Risk-Header` header.
    pub risk_header: String,
    pub body: Vec<(String, JsonValue)>,
}

pub open spec fn order_head(project_id: Seq<char>, screen_id: Seq<char>, sku: int, token: Seq<char>) -> Seq<(Seq<char>, JsonView)> {
    seq![
        ("project_id"@, JsonView::Int(id_or_zero(project_id))),
        ("screen_id"@, JsonView::Int(id_or_zero(screen_id))),
        ("sku_id"@, JsonView::Int(sku)),
        ("token"@, JsonView::Str(token)),
    ]
}

pub open spec fn order_tail(
    click: ClickPosition,
    is_mobile: bool,
    device: Option<Seq<char>>,
    pay_money: i64,
    count: i64,
    timestamp: i64,
) -> Seq<(Seq<char>, JsonView)> {
    seq![
        ("clickPosition"@, click_view(click)),
        ("newRisk"@, JsonView::Bool(true)),
        ("requestSource"@, JsonView::Str(if is_mobile { "neul-next"@ } else { "pc-new"@ })),
        ("deviceId"@, match device {
            Some(d) => JsonView::Str(d),
            None => JsonView::Null,
        }),
        ("pay_money"@, JsonView::Int(pay_money as int)),
        ("count"@, JsonView::Int(count as int)),
        ("timestamp"@, JsonView::Int(timestamp as int)),
        ("order_type"@, JsonView::Int(1)),
    ]
}

/// The ticket kind an order names, as a number.
pub open spec fn order_sku(t: TicketChoice) -> Option<i64> {
    match t.select_ticket_id {
        Some(id) => parse_i64_spec(id@),
        None => None,
    }
}

pub open spec fn unbound_buyer(t: TicketChoice) -> Seq<(Seq<char>, JsonView)> {
    seq![
        ("buyer"@, JsonView::Str(t.no_bind_buyer.unwrap().0@)),
        ("tel"@, JsonView::Str(t.no_bind_buyer.unwrap().1@)),
    ]
}

pub open spec fn bound_buyers(buyer_info_json: Seq<char>) -> Seq<(Seq<char>, JsonView)> {
    seq![("buyer_info"@, JsonView::Str(buyer_info_json))]
}

pub open spec fn hot_tokens(ctoken: Seq<char>, ptoken: Seq<char>) -> Seq<(Seq<char>, JsonView)> {
    seq![("ctoken"@, JsonView::Str(ctoken)), ("ptoken"@, JsonView::Str(without_char(ptoken, '=')))]
}

fn push_str_field(fs: &mut Vec<(String, JsonValue)>, k: &str, v: &str)
    ensures
        fields_view(final(fs)@) == fields_view(old(fs)@).push((k@, JsonView::Str(v@))),
{
    push_field(fs, k, str_value(v));
}

fn push_int_field(fs: &mut Vec<(String, JsonValue)>, k: &str, v: i64)
    ensures
        fields_view(final(fs)@) == fields_view(old(fs)@).push((k@, JsonView::Int(v as int))),
{
    push_field(fs, k, JsonValue::Int(v));
}

/// Appends the fields every order carries after the buyers.
fn push_order_tail(
    fs: &mut Vec<(String, JsonValue)>,
    click: &ClickPosition,
    is_mobile: bool,
    device: Option<String>,
    pay_money: i64,
    count: i64,
    timestamp: i64,
)
    ensures
        fields_view(final(fs)@) == fields_view(old(fs)@) + order_tail(
            *click,
            is_mobile,
            opt_text(device),
            pay_money,
            count,
            timestamp,
        ),
{
    let ghost dv = opt_text(device);
    push_field(fs, "clickPosition", click_json(click));
    push_field(fs, "newRisk", JsonValue::Bool(true));
    push_str_field(fs, "requestSource", if is_mobile { "neul-next" } else { "pc-new" });
    let d = match device {
        Some(v) => JsonValue::Str(v),
        None => JsonValue::Null,
    };
    push_field(fs, "deviceId", d);
    push_int_field(fs, "pay_money", pay_money);
    push_int_field(fs, "count", count);
    push_int_field(fs, "timestamp", timestamp);
    push_int_field(fs, "order_type", 1);
    assert(fields_view(fs@) =~= fields_view(old(fs)@) + order_tail(*click, is_mobile, dv, pay_money, count, timestamp));
}

/// Whether `r` is the order that `order_request` makes.
pub open spec fn order_request_ok(
    cookies: Map<Seq<char>, Seq<char>>,
    ctoken: Seq<char>,
    project_id: Seq<char>,
    token: Seq<char>,
    ptoken: Seq<char>,
    count: i64,
    pay_money: i64,
    is_hot: bool,
    ticket: TicketChoice,
    buyer_info_json: Seq<char>,
    is_mobile: bool,
    click: ClickPosition,
    timestamp: i64,
    o: OrderRequest,
) -> bool {
    let head = order_head(project_id, ticket.screen_id@, order_sku(ticket).unwrap() as int, token);
    let tail = order_tail(click, is_mobile, cookie_value(cookies, "deviceFingerprint"@), pay_money, count, timestamp);
    &&& o.url@ == order_url_spec(project_id, ptoken, is_hot)
    &&& o.risk_header@ == risk_header_spec(cookies)
    &&& fields_view(o.body@) == if ticket.id_bind == 0 {
        head + unbound_buyer(ticket) + tail
    } else if is_hot {
        head + hot_tokens(ctoken, ptoken) + bound_buyers(buyer_info_json) + tail
    } else {
        head + bound_buyers(buyer_info_json) + tail
    }
}

/// The order for `count` tickets costing `pay_money` in all, confirmed
/// with `token`, for the session `cookies`, clicked as `click` and sent at
/// `timestamp_ms`. Code 999 where no ticket kind is chosen or its id is no
/// number, 919 where the project's real-name kind is unknown. A hot
/// project with bound buyers carries a fresh click token of `cpdd`.
pub fn order_request(
    cookies: &crate::cookie_manager::CookieManager,
    cpdd: &mut CTokenGenerator,
    project_id: &str,
    token: &str,
    ptoken: &str,
    count: i64,
    pay_money: i64,
    is_hot: bool,
    ticket: &TicketChoice,
    buyer_info_json: &str,
    is_mobile: bool,
    click: &ClickPosition,
    timestamp_ms: i64,
) -> (r: Result<OrderRequest, i32>)
    requires
        cookies.wf(),
        ticket.id_bind == 0 && order_sku(*ticket) is Some ==> ticket.no_bind_buyer is Some,
    ensures
        order_sku(*ticket) is None ==> r == Err::<OrderRequest, i32>(999) && *final(cpdd) == *old(cpdd),
        order_sku(*ticket) is Some && !(0 <= ticket.id_bind <= 2) ==> r == Err::<OrderRequest, i32>(919)
            && *final(cpdd) == *old(cpdd),
        order_sku(*ticket) is Some && 0 <= ticket.id_bind <= 2 ==> (r matches Ok(o) && order_request_ok(
            cookies.cookies@,
            ctoken_text(final(cpdd).values()),
            project_id@,
            token@,
            ptoken@,
            count,
            pay_money,
            is_hot,
            *ticket,
            buyer_info_json@,
            is_mobile,
            *click,
            timestamp_ms,
            o,
        )),
        !(is_hot && 1 <= ticket.id_bind <= 2) ==> *final(cpdd) == *old(cpdd),
        final(cpdd).timer_base() == old(cpdd).timer_base(),
        is_hot && 1 <= ticket.id_bind <= 2 && order_sku(*ticket) is Some ==> exists|
            elapsed: i32,
            touches: i32,
            visibility: i32,
            windows: i32,
        |
            counters_ok(true, touches, visibility, windows) && final(cpdd).values() == #[trigger] submitted(
                old(cpdd).values(),
                old(cpdd).timer_base(),
                true,
                elapsed,
                touches,
                visibility,
                windows,
            ),
{
    let stripped = remove_char(ptoken, '=');
    let mut url = String::from_str("https://show.bilibili.com/api/ticket/order/createV2?project_id=");
    push_str(&mut url, project_id);
    if is_hot {
        push_str(&mut url, "&ptoken=");
        push_str(&mut url, stripped.as_str());
    }
    let uid = match cookies.get_cookie("DedeUserID") {
        Some(v) => v,
        None => String::from_str(""),
    };
    let buvid = match cookies.get_cookie("buvid3") {
        Some(v) => v,
        None => String::from_str(""),
    };
    let mut risk_header = String::from_str("platform/h5 uid/");
    push_str(&mut risk_header, uid.as_str());
    push_str(&mut risk_header, " deviceId/");
    push_str(&mut risk_header, buvid.as_str());
    let sku = match &ticket.select_ticket_id {
        Some(id) => match parse_i64(id.as_str()) {
            Some(v) => v,
            None => return Err(999),
        },
        None => return Err(999),
    };
    if !(0 <= ticket.id_bind && ticket.id_bind <= 2) {
        return Err(919);
    }
    let device = cookies.get_cookie("deviceFingerprint");
    let ghost dv = opt_text(device);
    assert(dv == cookie_value(cookies.cookies@, "deviceFingerprint"@));
    let mut body: Vec<(String, JsonValue)> = Vec::new();
    assert(fields_view(body@) =~= Seq::<(Seq<char>, JsonView)>::empty());
    push_int_field(&mut body, "project_id", id_number(project_id));
    push_int_field(&mut body, "screen_id", id_number(ticket.screen_id.as_str()));
    push_int_field(&mut body, "sku_id", sku);
    push_str_field(&mut body, "token", token);
    let ghost head = fields_view(body@);
    assert(head =~= order_head(project_id@, ticket.screen_id@, sku as int, token@));
    if ticket.id_bind == 0 {
        match &ticket.no_bind_buyer {
            Some(b) => {
                push_str_field(&mut body, "buyer", b.0.as_str());
                push_str_field(&mut body, "tel", b.1.as_str());
            },
            None => {},
        }
        assert(fields_view(body@) =~= head + unbound_buyer(*ticket));
    } else if is_hot {
        let ctoken = cpdd.generate_ctoken(true);
        push_str_field(&mut body, "ctoken", ctoken.as_str());
        push_str_field(&mut body, "ptoken", stripped.as_str());
        push_str_field(&mut body, "buyer_info", buyer_info_json);
        assert(fields_view(body@) =~= head + hot_tokens(ctoken@, ptoken@) + bound_buyers(buyer_info_json@));
    } else {
        push_str_field(&mut body, "buyer_info", buyer_info_json);
        assert(fields_view(body@) =~= head + bound_buyers(buyer_info_json@));
    }
    let ghost mid = fields_view(body@);
    push_order_tail(&mut body, click, is_mobile, device, pay_money, count, timestamp_ms);
    assert(url@ =~= order_url_spec(project_id@, ptoken@, is_hot));
    assert(risk_header@ =~= risk_header_spec(cookies.cookies@));
    Ok(OrderRequest { url, risk_header, body })
}

/// The error code of an order reply `text`: `errno` where present, else
/// `code`; `None` where the order went through.
pub open spec fn order_error_code(text: Seq<char>) -> Option<i32> {
    let errno = int_or_default(text, "/errno"@, -1);
    let code = int_or_default(text, "/code"@, -1);
    if errno != 0 || (errno == -1 && code != 0) {
        Some(if errno != -1 { (errno as i64) as i32 } else { (code as i64) as i32 })
    } else {
        None
    }
}

/// What an order reply says: the reply text where the order went through,
/// else an error code (412 where nothing or no JSON came back, the HTTP
/// status where it is not 200).
pub fn read_order_reply(reply: &HttpReply) -> (r: Result<String, i32>)
    ensures
        reply matches HttpReply::Failed(_) ==> r == Err::<String, i32>(412),
        reply matches HttpReply::Unread(status, _, _) ==> r == Err::<String, i32>(
            if status != 200 {
                status as i32
            } else {
                412
            },
        ),
        reply matches HttpReply::Received(status, _, text) ==> (if status != 200 {
            r == Err::<String, i32>(status as i32)
        } else if json_error(text@) is Some {
            r == Err::<String, i32>(412)
        } else {
            match order_error_code(text@) {
                Some(c) => r == Err::<String, i32>(c),
                None => r matches Ok(t) && t@ == text@,
            }
        }),
{
    match reply {
        HttpReply::Failed(_) => Err(412),
        HttpReply::Unread(status, _, _) => {
            if *status != 200 {
                Err(*status as i32)
            } else {
                Err(412)
            }
        },
        HttpReply::Received(status, _, text) => {
            if *status != 200 {
                return Err(*status as i32);
            }
            if parse_error(text.as_str()).is_some() {
                return Err(412);
            }
            let errno = int_or(text.as_str(), "/errno", -1);
            let code = int_or(text.as_str(), "/code", -1);
            if errno != 0 || (errno == -1 && code != 0) {
                return Err(
                    if errno != -1 {
                        errno as i32
                    } else {
                        code as i32
                    },
                );
            }
            Ok(text.clone())
        },
    }
}

/// The order id and payment token of a successful order reply (0 and
/// empty where absent).
pub fn order_outcome(text: &str) -> (r: (i64, String))
    ensures
        r.0 == int_or_default(text@, "/data/orderId"@, 0),
        r.1@ == or_default(json_str(text@, "/data/token"@), ""@),
{
    (int_or(text, "/data/orderId", 0), str_or(text, "/data/token", ""))
}

pub open spec fn confirm_url_spec(project_id: Seq<char>, token: Seq<char>) -> Seq<char> {
    "https://show.bilibili.com/api/ticket/order/confirmInfo?token="@ + token + "&voucher=&project_id="@
        + project_id + "&requestSource=neul-next"@
}

/// The URL that confirms the order of `token`.
pub fn confirm_url(project_id: &str, token: &str) -> (u: String)
    ensures
        u@ == confirm_url_spec(project_id@, token@),
{
    let mut u = String::from_str("https://show.bilibili.com/api/ticket/order/confirmInfo?token=");
    push_str(&mut u, token);
    push_str(&mut u, "&voucher=&project_id=");
    push_str(&mut u, project_id);
    push_str(&mut u, "&requestSource=neul-next");
    u
}

/// What a confirmation reply says: the JSON text of its `data` where the
/// confirmation went through, else the error message.
pub open spec fn confirm_reply_spec(reply: HttpReply) -> Result<Seq<char>, Seq<char>> {
    match reply {
        HttpReply::Failed(e) => Err("请求失败: "@ + e@),
        HttpReply::Unread(status, shown, e) => if !is_success(status) {
            Err("请求失败: "@ + shown@)
        } else {
            Err("获取响应文本失败: "@ + e@)
        },
        HttpReply::Received(status, shown, text) => if !is_success(status) {
            Err("请求失败: "@ + shown@)
        } else if json_error(text@) is Some {
            Err("解析响应文本失败: "@ + json_error(text@).unwrap())
        } else if json_int(text@, "/errno"@) != Some(0i64) {
            Err("确认订单失败: "@ + or_default(json_str(text@, "/msg"@), "未知错误"@))
        } else {
            Ok(or_default(json_raw(text@, "/data"@), "null"@))
        },
    }
}

pub fn read_confirm_reply(reply: &HttpReply) -> (r: Result<String, String>)
    ensures
        match confirm_reply_spec(*reply) {
            Ok(d) => r matches Ok(t) && t@ == d,
            Err(m) => r matches Err(t) && t@ == m,
        },
{
    match reply {
        HttpReply::Failed(e) => {
            let mut m = String::from_str("请求失败: ");
            push_str(&mut m, e.as_str());
            Err(m)
        },
        HttpReply::Unread(status, shown, e) => {
            if !(200 <= *status && *status < 300) {
                let mut m = String::from_str("请求失败: ");
                push_str(&mut m, shown.as_str());
                Err(m)
            } else {
                let mut m = String::from_str("获取响应文本失败: ");
                push_str(&mut m, e.as_str());
                Err(m)
            }
        },
        HttpReply::Received(status, shown, text) => {
            if !(200 <= *status && *status < 300) {
                let mut m = String::from_str("请求失败: ");
                push_str(&mut m, shown.as_str());
                return Err(m);
            }
            if let Some(e) = parse_error(text.as_str()) {
                let mut m = String::from_str("解析响应文本失败: ");
                push_str(&mut m, e.as_str());
                return Err(m);
            }
            let errno = crate::json::int_at(text.as_str(), "/errno");
            let zero = match errno {
                Some(v) => v == 0,
                None => false,
            };
            if !zero {
                let mut m = String::from_str("确认订单失败: ");
                let msg = str_or(text.as_str(), "/msg", "未知错误");
                push_str(&mut m, msg.as_str());
                return Err(m);
            }
            match raw_at(text.as_str(), "/data") {
                Some(d) => Ok(d),
                None => Ok(String::from_str("null")),
            }
        },
    }
}

pub open spec fn fake_check_url_spec(project_id: Seq<char>, pay_token: Seq<char>, timestamp: u32, order_id: i64) -> Seq<char> {
    let base = "https://show.bilibili.com/api/ticket/order/createstatus?project_id="@ + project_id + "&token="@
        + pay_token + "&timestamp="@ + decimal(timestamp as int);
    if order_id != 0 {
        base + "&orderId="@ + decimal(order_id as int)
    } else {
        base
    }
}

/// The URL that asks whether order `order_id` (0: unknown) with payment
/// token `pay_token` is real, at `timestamp` seconds.
pub fn fake_check_url(project_id: &str, pay_token: &str, timestamp: u32, order_id: i64) -> (u: String)
    ensures
        u@ == fake_check_url_spec(project_id@, pay_token@, timestamp, order_id),
{
    let mut u = String::from_str("https://show.bilibili.com/api/ticket/order/createstatus?project_id=");
    push_str(&mut u, project_id);
    push_str(&mut u, "&token=");
    push_str(&mut u, pay_token);
    push_str(&mut u, "&timestamp=");
    push_decimal(&mut u, timestamp as i128);
    if order_id != 0 {
        push_str(&mut u, "&orderId=");
        push_decimal(&mut u, order_id as i128);
    }
    u
}

/// What a fake-order check gives back: the reply text, or why it failed.
/// A body that could not be read counts as empty.
pub fn read_fake_check_reply(reply: &HttpReply) -> (r: Result<String, String>)
    ensures
        reply matches HttpReply::Failed(e) ==> r matches Err(m) && m@ == "请求失败: "@ + e@,
        reply matches HttpReply::Unread(_, _, _) ==> r matches Err(m) && m@ == "解析响应文本失败: "@
            + or_default(json_error(""@), ""@),
        reply matches HttpReply::Received(_, _, text) ==> match json_error(text@) {
            Some(e) => r matches Err(m) && m@ == "解析响应文本失败: "@ + e,
            None => r matches Ok(t) && t@ == text@,
        },
{
    match reply {
        HttpReply::Failed(e) => {
            let mut m = String::from_str("请求失败: ");
            push_str(&mut m, e.as_str());
            Err(m)
        },
        HttpReply::Unread(_, _, _) => {
            let mut m = String::from_str("解析响应文本失败: ");
            let e = match parse_error("") {
                Some(e) => e,
                None => String::from_str(""),
            };
            push_str(&mut m, e.as_str());
            Err(m)
        },
        HttpReply::Received(_, _, text) => match parse_error(text.as_str()) {
            Some(e) => {
                let mut m = String::from_str("解析响应文本失败: ");
                push_str(&mut m, e.as_str());
                Err(m)
            },
            None => Ok(text.clone()),
        },
    }
}

/// Whether a fake-order check reply `text` passes: its `errno` is 0 or absent.
pub fn fake_check_passed(text: &str) -> (b: bool)
    ensures
        b == (int_or_default(text@, "/errno"@, 0) == 0),
{
    int_or(text, "/errno", 0) == 0
}

/// The URL of the service's time endpoint.
pub fn clock_url() -> (u: String)
    ensures
        u@ == "https://api.bilibili.com/x/click-interface/click/now"@,
{
    String::from_str("https://api.bilibili.com/x/click-interface/click/now")
}

/// The server's clock, in seconds, read from a reply of the time
/// endpoint: `data.now`, or 0 where nothing could be read.
pub open spec fn network_now_spec(reply: HttpReply) -> int {
    match reply {
        HttpReply::Received(_, _, text) => int_or_default(text@, "/data/now"@, 0),
        _ => 0,
    }
}

pub fn network_now(reply: &HttpReply) -> (n: i64)
    ensures
        n == network_now_spec(*reply),
{
    match reply {
        HttpReply::Received(_, _, text) => int_or(text.as_str(), "/data/now", 0),
        _ => 0,
    }
}

/// The time now, in seconds: the server's where its reply gives one, else
/// the local clock's.
pub fn get_now_time(reply: &HttpReply) -> (t: i64)
    ensures
        network_now_spec(*reply) != 0 ==> t == network_now_spec(*reply),
{
    let n = network_now(reply);
    if n == 0 {
        crate::outside::utc_now_secs()
    } else {
        n
    }
}

/// Seconds until sale begins for a project whose details are `info` (its
/// `sale_begin` inside), the clock reading `now`.
pub open spec fn countdown_spec(info: Option<Option<i64>>, now: i64) -> Result<int, Seq<char>> {
    match info {
        None => Err("获取开始时间失败"@),
        Some(None) => Err("开售时间(sale_begin)为空"@),
        Some(Some(begin)) => Ok(begin - now),
    }
}

pub fn countdown_from(info: Option<Option<i64>>, now: i64) -> (r: Result<i128, String>)
    ensures
        match countdown_spec(info, now) {
            Ok(c) => r matches Ok(v) && v == c,
            Err(m) => r matches Err(e) && e@ == m,
        },
{
    match info {
        None => Err(String::from_str("获取开始时间失败")),
        Some(None) => Err(String::from_str("开售时间(sale_begin)为空")),
        Some(Some(begin)) => Ok(begin as i128 - now as i128),
    }
}

/// Seconds until sale begins, by the server's clock where the time reply
/// gives it and the local clock otherwise.
pub fn get_countdown(info: Option<Option<i64>>, now_reply: &HttpReply) -> (r: Result<i128, String>)
    ensures
        info is None || info == Some(None::<i64>) ==> match countdown_spec(info, 0) {
            Err(m) => r matches Err(e) && e@ == m,
            Ok(_) => false,
        },
        info matches Some(Some(begin)) ==> (r matches Ok(c) && (network_now_spec(*now_reply) != 0 ==> c
            == begin - network_now_spec(*now_reply))),
{
    match info {
        Some(Some(_)) => {
            let now = get_now_time(now_reply);
            countdown_from(info, now)
        },
        _ => countdown_from(info, 0),
    }
}

/// How a QR-code login stands.
pub enum QrCodeLoginStatus {
    Pending,
    Scanning,
    /// Logged in, with the session's cookie string.
    Success(String),
    Expired,
    Failed(String),
}

pub open spec fn qr_poll_url_spec(qrcode_key: Seq<char>) -> Seq<char> {
    "https://passport.bilibili.com/x/passport-login/web/qrcode/poll?qrcode_key="@ + qrcode_key
}

/// The URL that asks how the login of `qrcode_key` stands.
pub fn qr_poll_url(qrcode_key: &str) -> (u: String)
    ensures
        u@ == qr_poll_url_spec(qrcode_key@),
{
    let mut u = String::from_str("https://passport.bilibili.com/x/passport-login/web/qrcode/poll?qrcode_key=");
    push_str(&mut u, qrcode_key);
    u
}

/// The user agent the login poll sends: the caller's, else a desktop Chrome.
pub fn qr_user_agent(user_agent: Option<&str>) -> (u: String)
    ensures
        match user_agent {
            Some(a) => u@ == a@,
            None => u@ == "Mozilla/5.0 (Windows NT 10.0; Win64; x64) Chrome/110.0.0.0 Safari/537.36"@,
        },
{
    match user_agent {
        Some(a) => String::from_str(a),
        None => String::from_str("Mozilla/5.0 (Windows NT 10.0; Win64; x64) Chrome/110.0.0.0 Safari/537.36"),
    }
}

/// How many times a login is polled before it counts as expired.
pub open spec fn qr_poll_limit() -> u32 {
    59
}

/// What the login poll does after attempt `attempt`.
pub enum QrNext {
    /// The login is decided.
    Done(QrCodeLoginStatus),
    /// Wait a second and poll again.
    PollAgain,
    /// Wait a second; the code has expired.
    Expire,
}

/// The step after poll attempt `attempt` (counted from 1) said `decided`:
/// a decided login ends the poll; otherwise the poll goes on until
/// `qr_poll_limit()` attempts are made, after which the code counts as
/// expired.
pub fn qr_after_poll(attempt: u32, decided: Option<QrCodeLoginStatus>) -> (r: QrNext)
    requires
        1 <= attempt,
    ensures
        decided matches Some(s) ==> r == QrNext::Done(s),
        decided is None && attempt < qr_poll_limit() ==> r is PollAgain,
        decided is None && attempt >= qr_poll_limit() ==> r is Expire,
{
    match decided {
        Some(s) => QrNext::Done(s),
        None => if attempt < 59 {
            QrNext::PollAgain
        } else {
            QrNext::Expire
        },
    }
}

/// The `name=value` part of a `Set-Cookie` line: what precedes its first `;`.
pub open spec fn cookie_prefix_spec(line: Seq<char>) -> Seq<char> {
    match crate::text::first_index(line, ';') {
        Some(i) => line.subrange(0, i as int),
        None => line,
    }
}

pub fn cookie_prefix(line: &str) -> (r: String)
    ensures
        r@ == cookie_prefix_spec(line@),
{
    let v = crate::text::chars_of(line);
    assert(v@.subrange(0, v@.len() as int) =~= v@);
    proof {
        crate::text::lemma_first_index(v@, ';');
    }
    match crate::text::find_char(&v, 0, v.len(), ';') {
        Some(i) => crate::text::string_of(&v, 0, i),
        None => String::from_str(line),
    }
}

/// `k` as one token of a JSON pointer: `~` written `~0`, `/` written `~1`.
pub open spec fn pointer_escape(k: Seq<char>) -> Seq<char>
    decreases k.len(),
{
    if k.len() == 0 {
        k
    } else {
        pointer_escape(k.drop_last()) + (if k.last() == '~' {
            "~0"@
        } else if k.last() == '/' {
            "~1"@
        } else {
            seq![k.last()]
        })
    }
}

pub fn escape_pointer_token(k: &str) -> (r: String)
    ensures
        r@ == pointer_escape(k@),
{
    let v = crate::text::chars_of(k);
    let mut r = String::new();
    let mut i: usize = 0;
    assert(v@.subrange(0, 0) =~= Seq::<char>::empty());
    while i < v.len()
        invariant
            i <= v@.len(),
            v@ == k@,
            r@ == pointer_escape(v@.subrange(0, i as int)),
        decreases v.len() - i,
    {
        assert(v@.subrange(0, i + 1).drop_last() =~= v@.subrange(0, i as int));
        let c = v[i];
        if c == '~' {
            push_str(&mut r, "~0");
        } else if c == '/' {
            push_str(&mut r, "~1");
        } else {
            crate::text::push_char(&mut r, c);
            assert(r@ =~= pointer_escape(v@.subrange(0, i as int)) + seq![c]);
        }
        i = i + 1;
    }
    assert(v@.subrange(0, v@.len() as int) =~= v@);
    r
}

/// Where the value of cookie `k` sits in a login reply.
pub open spec fn info_value_pointer(k: Seq<char>) -> Seq<char> {
    "/data/cookie_info/"@ + pointer_escape(k) + "/value"@
}

/// `k=value` for each key `k` of the reply's cookie object whose `value`
/// is a string, in key order.
pub open spec fn info_cookies(keys: Seq<Seq<char>>, text: Seq<char>) -> Seq<Seq<char>>
    decreases keys.len(),
{
    if keys.len() == 0 {
        Seq::empty()
    } else {
        let rest = info_cookies(keys.drop_last(), text);
        match json_str(text, info_value_pointer(keys.last())) {
            Some(v) => rest.push(keys.last() + "="@ + v),
            None => rest,
        }
    }
}

pub open spec fn strings_view(v: Seq<String>) -> Seq<Seq<char>> {
    v.map_values(|s: String| s@)
}

/// The cookies a successful login brings: the `name=value` part of each
/// `Set-Cookie` line, then those of the reply's cookie object.
pub open spec fn qr_cookie_list(set_cookies: Seq<Seq<char>>, text: Seq<char>) -> Seq<Seq<char>> {
    set_cookies.map_values(|l: Seq<char>| cookie_prefix_spec(l)) + match json_keys(text, "/data/cookie_info"@) {
        Some(ks) => info_cookies(ks, text),
        None => Seq::empty(),
    }
}

/// `parts` joined with `sep` between each two.
pub fn join_with(parts: &Vec<String>, sep: &str) -> (r: String)
    ensures
        r@ == crate::push::join(strings_view(parts@), sep@),
{
    let ghost pv = strings_view(parts@);
    let mut r = String::new();
    let mut i: usize = 0;
    assert(pv.take(0) =~= Seq::<Seq<char>>::empty());
    while i < parts.len()
        invariant
            i <= parts@.len(),
            pv == strings_view(parts@),
            r@ == crate::push::join(pv.take(i as int), sep@),
        decreases parts.len() - i,
    {
        assert(pv.take(i + 1).drop_last() =~= pv.take(i as int));
        if i > 0 {
            push_str(&mut r, sep);
        } else {
            assert(r@ =~= Seq::<char>::empty());
        }
        push_str(&mut r, parts[i].as_str());
        i = i + 1;
    }
    assert(pv.take(parts@.len() as int) =~= pv);
    r
}

/// The cookies of a successful login, in order.
fn qr_cookies(set_cookies: &Vec<String>, text: &str) -> (r: Vec<String>)
    ensures
        strings_view(r@) == qr_cookie_list(strings_view(set_cookies@), text@),
{
    let ghost sv = strings_view(set_cookies@);
    let mut r: Vec<String> = Vec::new();
    let mut i: usize = 0;
    while i < set_cookies.len()
        invariant
            i <= set_cookies@.len(),
            sv == strings_view(set_cookies@),
            strings_view(r@) == sv.take(i as int).map_values(|l: Seq<char>| cookie_prefix_spec(l)),
        decreases set_cookies.len() - i,
    {
        let p = cookie_prefix(set_cookies[i].as_str());
        let ghost before = strings_view(r@);
        assert(sv[i as int] == set_cookies@[i as int]@);
        r.push(p);
        assert(strings_view(r@) =~= before.push(cookie_prefix_spec(sv[i as int])));
        assert(sv.take(i + 1).map_values(|l: Seq<char>| cookie_prefix_spec(l)) =~= sv.take(i as int).map_values(
            |l: Seq<char>| cookie_prefix_spec(l),
        ).push(cookie_prefix_spec(sv[i as int])));
        i = i + 1;
    }
    assert(sv.take(set_cookies@.len() as int) =~= sv);
    let ghost head = strings_view(r@);
    match crate::json::keys_at(text, "/data/cookie_info") {
        Some(keys) => {
            let ghost ks = json_keys(text@, "/data/cookie_info"@).unwrap();
            assert(strings_view(keys@) =~= ks);
            let mut j: usize = 0;
            assert(ks.take(0) =~= Seq::<Seq<char>>::empty());
            while j < keys.len()
                invariant
                    j <= keys@.len(),
                    strings_view(keys@) == ks,
                    strings_view(r@) == head + info_cookies(ks.take(j as int), text@),
                decreases keys.len() - j,
            {
                assert(ks.take(j + 1).drop_last() =~= ks.take(j as int));
                let mut ptr = String::from_str("/data/cookie_info/");
                let esc = escape_pointer_token(keys[j].as_str());
                push_str(&mut ptr, esc.as_str());
                push_str(&mut ptr, "/value");
                assert(ptr@ =~= info_value_pointer(ks[j as int]));
                match crate::json::str_at(text, ptr.as_str()) {
                    Some(v) => {
                        let mut c = String::from_str(keys[j].as_str());
                        push_str(&mut c, "=");
                        push_str(&mut c, v.as_str());
                        let ghost before = strings_view(r@);
                        assert(keys@[j as int]@ == ks[j as int]);
                        assert(ks.take(j + 1).last() == ks[j as int]);
                        r.push(c);
                        assert(strings_view(r@) =~= before.push(c@));
                        assert(info_cookies(ks.take(j + 1), text@) =~= info_cookies(ks.take(j as int), text@).push(
                            ks[j as int] + "="@ + v@,
                        ));
                        assert(strings_view(r@) =~= head + info_cookies(ks.take(j + 1), text@));
                    },
                    None => {
                        assert(ks.take(j + 1).last() == ks[j as int]);
                        assert(info_cookies(ks.take(j + 1), text@) =~= info_cookies(ks.take(j as int), text@));
                    },
                }
                j = j + 1;
            }
            assert(ks.take(keys@.len() as int) =~= ks);
        },
        None => {
            assert(head =~= head + Seq::<Seq<char>>::empty());
        },
    }
    r
}

/// What one poll of a QR-code login says: `Some` status where the login
/// is decided, `None` where it waits to be scanned or confirmed.
/// `set_cookies` are the reply's `Set-Cookie` lines.
pub fn read_qr_poll(set_cookies: &Vec<String>, reply: &HttpReply) -> (r: Option<QrCodeLoginStatus>)
    ensures
        reply matches HttpReply::Failed(e) ==> (r matches Some(QrCodeLoginStatus::Failed(m)) && m@ == e@),
        reply matches HttpReply::Unread(_, _, e) ==> (r matches Some(QrCodeLoginStatus::Failed(m)) && m@
            == e@),
        reply matches HttpReply::Received(_, _, text) ==> (if json_error(text@) is Some {
            r matches Some(QrCodeLoginStatus::Failed(m)) && m@ == json_error(text@).unwrap()
        } else if int_or_default(text@, "/data/code"@, -1) == 0 {
            let cs = qr_cookie_list(strings_view(set_cookies@), text@);
            if cs.len() > 0 {
                r matches Some(QrCodeLoginStatus::Success(c)) && c@ == crate::push::join(cs, "; "@)
            } else {
                r matches Some(QrCodeLoginStatus::Failed(m)) && m@ == "无法获取Cookie信息"@
            }
        } else if int_or_default(text@, "/data/code"@, -1) == 86038 {
            r matches Some(QrCodeLoginStatus::Expired)
        } else if int_or_default(text@, "/data/code"@, -1) == 86090 || int_or_default(
            text@,
            "/data/code"@,
            -1,
        ) == 86101 {
            r is None
        } else {
            r matches Some(QrCodeLoginStatus::Failed(m)) && m@ == or_default(
                json_str(text@, "/message"@),
                "未知错误"@,
            )
        }),
{
    match reply {
        HttpReply::Failed(e) => Some(QrCodeLoginStatus::Failed(e.clone())),
        HttpReply::Unread(_, _, e) => Some(QrCodeLoginStatus::Failed(e.clone())),
        HttpReply::Received(_, _, text) => {
            if let Some(e) = parse_error(text.as_str()) {
                return Some(QrCodeLoginStatus::Failed(e));
            }
            let code = int_or(text.as_str(), "/data/code", -1);
            if code == 0 {
                let cookies = qr_cookies(set_cookies, text.as_str());
                if cookies.len() > 0 {
                    Some(QrCodeLoginStatus::Success(join_with(&cookies, "; ")))
                } else {
                    Some(QrCodeLoginStatus::Failed(String::from_str("无法获取Cookie信息")))
                }
            } else if code == 86038 {
                Some(QrCodeLoginStatus::Expired)
            } else if code == 86090 || code == 86101 {
                None
            } else {
                Some(QrCodeLoginStatus::Failed(str_or(text.as_str(), "/message", "未知错误")))
            }
        },
    }
}

/// Where a project's details are cached: `cache/project_<id>.json`.
pub open spec fn cache_path_spec(project_id: Seq<char>) -> Seq<char> {
    "cache/project_"@ + project_id + ".json"@
}

pub fn cache_path(project_id: &str) -> (p: String)
    ensures
        p@ == cache_path_spec(project_id@),
{
    let mut p = String::from_str("cache/project_");
    push_str(&mut p, project_id);
    push_str(&mut p, ".json");
    p
}

pub open spec fn project_url_spec(project_id: Seq<char>) -> Seq<char> {
    "https://show.bilibili.com/api/ticket/project/getV2?id="@ + project_id + "&project_id="@ + project_id
}

/// The URL of a project's details.
pub fn project_url(project_id: &str) -> (u: String)
    ensures
        u@ == project_url_spec(project_id@),
{
    let mut u = String::from_str("https://show.bilibili.com/api/ticket/project/getV2?id=");
    push_str(&mut u, project_id);
    push_str(&mut u, "&project_id=");
    push_str(&mut u, project_id);
    u
}

/// The extra header of a project request: the page it was opened from.
pub fn project_headers(referer_link: &str) -> (h: Vec<(String, String)>)
    ensures
        h@.len() == 1,
        h@[0].0@ == "Referer"@,
        h@[0].1@ == referer_link@,
{
    let mut h: Vec<(String, String)> = Vec::new();
    h.push((String::from_str("Referer"), String::from_str(referer_link)));
    h
}

/// The URL of the account's buyer list.
pub fn buyer_list_url() -> (u: String)
    ensures
        u@ == "https://show.bilibili.com/api/ticket/buyer/list"@,
{
    String::from_str("https://show.bilibili.com/api/ticket/buyer/list")
}

/// The body of a details reply (project or buyer list), or why there is
/// none; `what` names the details in the message of an unreadable body.
pub open spec fn details_reply_spec(reply: HttpReply, what: Seq<char>) -> Result<Seq<char>, Seq<char>> {
    match reply {
        HttpReply::Failed(e) => Err("请求失败: "@ + e@),
        HttpReply::Unread(status, shown, e) => if !is_success(status) {
            Err("请求响应失败: "@ + shown@)
        } else {
            Err("获取"@ + what + "失败："@ + e@)
        },
        HttpReply::Received(status, shown, text) => if !is_success(status) {
            Err("请求响应失败: "@ + shown@)
        } else {
            Ok(text@)
        },
    }
}

pub fn read_details_reply(reply: &HttpReply, what: &str) -> (r: Result<String, String>)
    ensures
        match details_reply_spec(*reply, what@) {
            Ok(t) => r matches Ok(b) && b@ == t,
            Err(m) => r matches Err(e) && e@ == m,
        },
{
    match reply {
        HttpReply::Failed(e) => {
            let mut m = String::from_str("请求失败: ");
            push_str(&mut m, e.as_str());
            Err(m)
        },
        HttpReply::Unread(status, shown, e) => {
            if !(200 <= *status && *status < 300) {
                let mut m = String::from_str("请求响应失败: ");
                push_str(&mut m, shown.as_str());
                Err(m)
            } else {
                let mut m = String::from_str("获取");
                push_str(&mut m, what);
                push_str(&mut m, "失败：");
                push_str(&mut m, e.as_str());
                Err(m)
            }
        },
        HttpReply::Received(status, shown, text) => {
            if !(200 <= *status && *status < 300) {
                let mut m = String::from_str("请求响应失败: ");
                push_str(&mut m, shown.as_str());
                Err(m)
            } else {
                Ok(text.clone())
            }
        },
    }
}

/// A project's details: fetched where that worked, else the cached copy,
/// else the fetch's error.
pub fn project_or_cached<T>(online: Result<T, String>, cached: Option<T>) -> (r: Result<T, String>)
    ensures
        online is Ok ==> r == online,
        online is Err && cached is Some ==> r == Ok::<T, String>(cached.unwrap()),
        online is Err && cached is None ==> r == online,
{
    match online {
        Ok(info) => Ok(info),
        Err(e) => match cached {
            Some(c) => Ok(c),
            None => Err(e),
        },
    }
}

/// An order goes through exactly when its reply's `errno` is 0.
pub proof fn law_order_succeeds_iff_errno_zero(text: Seq<char>)
    ensures
        order_error_code(text) is None <==> json_int(text, "/errno"@) == Some(0i64),
{
}

/// Whether a fetched buyer list is worth caching: only a nonempty one, so
/// that an empty reply never replaces a good cache.
pub fn should_cache_buyers(count: usize) -> (b: bool)
    ensures
        b == (count > 0),
{
    count > 0
}

/// The outcome of a buyer-list task: the fetched list where that worked;
/// else the cached one where it is nonempty (`cached` carries it with its
/// length), saying so; else the fetch's error.
pub fn buyer_info_result<T>(online: Result<T, String>, cached: Option<(T, usize)>) -> (r: (bool, Option<T>, String))
    ensures
        online matches Ok(v) ==> r.0 && r.1 == Some(v) && r.2@ == "购票人信息请求成功"@,
        online is Err && (cached matches Some((c, n)) && n > 0) ==> (r.0 && r.1 == Some(cached.unwrap().0)
            && r.2@ == "网络获取购票人失败，已从本地缓存读取"@),
        online matches Err(e) ==> (!(cached matches Some((c, n)) && n > 0) ==> (!r.0 && r.1 is None && r.2@
            == e@)),
{
    match online {
        Ok(v) => (true, Some(v), String::from_str("购票人信息请求成功")),
        Err(e) => match cached {
            Some((c, n)) => if n > 0 {
                (true, Some(c), String::from_str("网络获取购票人失败，已从本地缓存读取"))
            } else {
                (false, None, e)
            },
            None => (false, None, e),
        },
    }
}

} // verus!
