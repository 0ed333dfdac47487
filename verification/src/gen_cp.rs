//! The `ctoken` risk token: a snapshot of browser metrics and interaction
//! counters, packed into 16 bytes, widened to 32 and base64-encoded.

use vstd::prelude::*;
use vstd::utf8::encode_utf8;
use crate::codec::{base64_encode, base64_standard};
use crate::outside::{random_i32_in, random_u32_in, utc_now_millis};

verus! {

/// Browser metrics of the page a token is made for. The device pixel
/// ratio is kept as ten times its value, truncated (1.25 is 12).
pub struct EncodeData {
    pub ua: String,
    pub href: String,
    pub device_pixel_ratio_tenths: i32,
    pub scroll_x: i32,
    pub scroll_y: i32,
    pub inner_width: i32,
    pub inner_height: i32,
    pub outer_width: i32,
    pub outer_height: i32,
    pub screen_x: i32,
    pub screen_y: i32,
    pub screen_width: i32,
    pub screen_height: i32,
    pub avail_width: i32,
    pub avail_height: i32,
    pub history_length: i32,
}

/// The sixteen values a metric is drawn from; the last is the clock in
/// milliseconds modulo 256.
pub open spec fn metric_table(e: EncodeData, now_ms: u64) -> Seq<int> {
    seq![
        e.scroll_x as int,
        e.scroll_y as int,
        e.inner_width as int,
        e.inner_height as int,
        e.outer_width as int,
        e.outer_height as int,
        e.screen_x as int,
        e.screen_y as int,
        e.screen_width as int,
        e.screen_height as int,
        e.avail_width as int,
        e.history_length as int,
        ((encode_utf8(e.ua@).len() as usize) as i32) as int,
        ((encode_utf8(e.href@).len() as usize) as i32) as int,
        if e.device_pixel_ratio_tenths == 0 { 10 } else { e.device_pixel_ratio_tenths as int },
        (now_ms % 256) as int,
    ]
}

/// The sum a metric is cut from, before the low byte is kept.
pub open spec fn metric_sum(e: EncodeData, index: nat, now_ms: u64) -> int {
    let t = metric_table(e, now_ms);
    t[(index % 16) as int] + t[((3 * index) % 16) as int] + 17 * index
}

/// Whether metric `index` is computed without leaving the range of `i32`.
pub open spec fn metric_fits(e: EncodeData, index: nat, now_ms: u64) -> bool {
    i32::MIN <= metric_sum(e, index, now_ms) <= i32::MAX && 3 * index <= usize::MAX && index
        <= i32::MAX
}

/// Metric `index` at clock `now_ms`: the low byte of the sum.
pub open spec fn metric(e: EncodeData, index: nat, now_ms: u64) -> i32 {
    (metric_sum(e, index, now_ms) as i32) & 255
}

/// Whether `e` holds metrics of a fresh page view as they are drawn: a
/// device pixel ratio of 1, 1.25, 1.5 or 2, nothing scrolled, the window
/// at the screen's corner, sizes in their usual ranges and one to three
/// history entries.
pub open spec fn fresh_page(e: EncodeData) -> bool {
    &&& e.device_pixel_ratio_tenths == 10 || e.device_pixel_ratio_tenths == 12
        || e.device_pixel_ratio_tenths == 15 || e.device_pixel_ratio_tenths == 20
    &&& e.scroll_x == 0 && e.scroll_y == 0 && e.screen_x == 0 && e.screen_y == 0
    &&& 1500 <= e.inner_width < 1700
    &&& 700 <= e.inner_height < 900
    &&& 1500 <= e.outer_width < 1700
    &&& 800 <= e.outer_height < 1000
    &&& 1500 <= e.screen_width < 1700
    &&& 800 <= e.screen_height < 1000
    &&& 1400 <= e.avail_width < 1600
    &&& 700 <= e.avail_height < 900
    &&& 1 <= e.history_length < 4
}

proof fn lemma_low_byte(x: i32)
    ensures
        (x & 255) as int == (x as int) % 256,
{
    assert((x & 255) as int == (x as int) % 256) by (bit_vector);
}

/// Each metric of a token is the low byte of two page values plus 17 times
/// its index: metric 1 sums the vertical scroll and the inner height,
/// 2 the inner width and the window's left edge, 3 the inner and screen
/// heights, 4 the outer width and the user agent's byte length, 5 the outer
/// height and the clock's last byte, 6 the window's left edge and the
/// inner width, 7 the window's top edge and the outer height, 8 twice the
/// screen width, 9 the screen height and the history length, 10 the
/// available width and the pixel ratio in tenths (1 where unset), 11 the
/// history length and the vertical scroll.
#[verifier::spinoff_prover]
pub proof fn law_metric_values(e: EncodeData, t: u64)
    requires
        encodable(e),
        encode_utf8(e.ua@).len() <= 0x7fff0000,
    ensures
        metric(e, 1, t) == (e.scroll_y + e.inner_height + 17) % 256,
        metric(e, 2, t) == (e.inner_width + e.screen_x + 34) % 256,
        metric(e, 3, t) == (e.inner_height + e.screen_height + 51) % 256,
        metric(e, 4, t) == (e.outer_width + encode_utf8(e.ua@).len() + 68) % 256,
        metric(e, 5, t) == (e.outer_height + t % 256 + 85) % 256,
        metric(e, 6, t) == (e.screen_x + e.inner_width + 102) % 256,
        metric(e, 7, t) == (e.screen_y + e.outer_height + 119) % 256,
        metric(e, 8, t) == (2 * e.screen_width + 136) % 256,
        metric(e, 9, t) == (e.screen_height + e.history_length + 153) % 256,
        metric(e, 10, t) == (e.avail_width + (if e.device_pixel_ratio_tenths == 0 {
            10
        } else {
            e.device_pixel_ratio_tenths as int
        }) + 170) % 256,
        metric(e, 11, t) == (e.history_length + e.scroll_y + 187) % 256,
{
    let n = encode_utf8(e.ua@).len();
    assert(((n as usize) as i32) as int == n as int);
    assert forall|i: nat| 1 <= i <= 11 implies metric(e, i, t) == metric_sum(e, i, t) % 256 by {
        assert(metric_fits(e, i, t));
        lemma_low_byte(metric_sum(e, i, t) as i32);
    }
    assert(metric(e, 1, t) == metric_sum(e, 1, t) % 256);
    assert(metric(e, 2, t) == metric_sum(e, 2, t) % 256);
    assert(metric(e, 3, t) == metric_sum(e, 3, t) % 256);
    assert(metric(e, 4, t) == metric_sum(e, 4, t) % 256);
    assert(metric(e, 5, t) == metric_sum(e, 5, t) % 256);
    assert(metric(e, 6, t) == metric_sum(e, 6, t) % 256);
    assert(metric(e, 7, t) == metric_sum(e, 7, t) % 256);
    assert(metric(e, 8, t) == metric_sum(e, 8, t) % 256);
    assert(metric(e, 9, t) == metric_sum(e, 9, t) % 256);
    assert(metric(e, 10, t) == metric_sum(e, 10, t) % 256);
    assert(metric(e, 11, t) == metric_sum(e, 11, t) % 256);
}

/// Sixteen indices apart, a metric reads the same two page values and its
/// byte moves on by 16 (17 times 16, modulo 256).
#[verifier::spinoff_prover]
pub proof fn law_metric_period(e: EncodeData, i: nat, t: u64)
    requires
        metric_fits(e, i, t),
        metric_fits(e, i + 16, t),
    ensures
        metric(e, i + 16, t) == (metric(e, i, t) + 16) % 256,
{
    let j: int = i as int;
    assert((j + 16) % 16 == j % 16) by (nonlinear_arith);
    assert((3 * j + 48) % 16 == (3 * j) % 16) by (nonlinear_arith);
    assert(3 * (j + 16) == 3 * j + 48);
    let tb = metric_table(e, t);
    assert(metric_sum(e, i + 16, t) == tb[((j + 16) % 16) as int] + tb[((3 * (j + 16)) % 16) as int] + 17 * (j + 16));
    assert(metric_sum(e, i, t) == tb[(j % 16) as int] + tb[((3 * j) % 16) as int] + 17 * j);
    assert(metric_sum(e, i + 16, t) == metric_sum(e, i, t) + 272);
    lemma_low_byte(metric_sum(e, i, t) as i32);
    lemma_low_byte(metric_sum(e, i + 16, t) as i32);
}

/// Whether every metric of a token can be computed at any clock reading.
pub open spec fn encodable(e: EncodeData) -> bool {
    forall|i: nat, t: u64| 1 <= i <= 11 ==> #[trigger] metric_fits(e, i, t)
}

fn table_at(e: &EncodeData, i: usize, now_mod: i32) -> (r: i32)
    requires
        i < 16,
        0 <= now_mod < 256,
    ensures
        forall|t: u64| (t % 256) as int == now_mod as int ==> r as int == #[trigger] metric_table(*e, t)[i as int],
{
    if i == 0 {
        e.scroll_x
    } else if i == 1 {
        e.scroll_y
    } else if i == 2 {
        e.inner_width
    } else if i == 3 {
        e.inner_height
    } else if i == 4 {
        e.outer_width
    } else if i == 5 {
        e.outer_height
    } else if i == 6 {
        e.screen_x
    } else if i == 7 {
        e.screen_y
    } else if i == 8 {
        e.screen_width
    } else if i == 9 {
        e.screen_height
    } else if i == 10 {
        e.avail_width
    } else if i == 11 {
        e.history_length
    } else if i == 12 {
        #[verifier::truncate]
        (e.ua.as_str().len() as i32)
    } else if i == 13 {
        #[verifier::truncate]
        (e.href.as_str().len() as i32)
    } else if i == 14 {
        if e.device_pixel_ratio_tenths == 0 {
            10
        } else {
            e.device_pixel_ratio_tenths
        }
    } else {
        now_mod
    }
}

impl EncodeData {
    /// Metrics of a page at `href` seen with user agent `ua`, with a random
    /// window and screen geometry.
    pub fn new(ua: String, href: String) -> (r: Self)
        ensures
            r.ua@ == ua@,
            r.href@ == href@,
            fresh_page(r),
    {
        let ratio_index = random_u32_in(0, 4);
        let tenths: i32 = if ratio_index == 0 {
            10
        } else if ratio_index == 1 {
            12
        } else if ratio_index == 2 {
            15
        } else {
            20
        };
        EncodeData {
            ua,
            href,
            device_pixel_ratio_tenths: tenths,
            scroll_x: 0,
            scroll_y: 0,
            inner_width: random_i32_in(1500, 1700),
            inner_height: random_i32_in(700, 900),
            outer_width: random_i32_in(1500, 1700),
            outer_height: random_i32_in(800, 1000),
            screen_x: 0,
            screen_y: 0,
            screen_width: random_i32_in(1500, 1700),
            screen_height: random_i32_in(800, 1000),
            avail_width: random_i32_in(1400, 1600),
            avail_height: random_i32_in(700, 900),
            history_length: random_i32_in(1, 4),
        }
    }

    /// Metric `index` at clock `now_ms`.
    pub fn encode_at(&self, index: usize, now_ms: u64) -> (r: i32)
        requires
            metric_fits(*self, index as nat, now_ms),
        ensures
            r == metric(*self, index as nat, now_ms),
    {
        let now_mod = (now_ms % 256) as i32;
        let a = table_at(self, index % 16, now_mod);
        let b = table_at(self, (3 * index) % 16, now_mod);
        assert(a as int == metric_table(*self, now_ms)[(index % 16) as int]);
        assert(b as int == metric_table(*self, now_ms)[((3 * index) % 16) as int]);
        let s = (a as i64) + (b as i64) + 17 * (index as i64);
        (s as i32) & 255
    }

    /// Metric `index` at the current clock.
    pub fn encode(&self, index: usize) -> (r: i32)
        requires
            forall|t: u64| #[trigger] metric_fits(*self, index as nat, t),
        ensures
            exists|t: u64| r == #[trigger] metric(*self, index as nat, t),
    {
        let now = utc_now_millis();
        let now_ms: u64 = if now < 0 {
            0
        } else {
            now as u64
        };
        let r = self.encode_at(index, now_ms);
        assert(r == metric(*self, index as nat, now_ms));
        r
    }
}

/// The values a token is packed from.
pub struct CTokenField {
    pub h: i32,
    pub f: i32,
    pub y: i32,
    pub b: i32,
    pub z: i32,
    pub q: i32,
    pub v: i32,
    pub k: i32,
    pub g: i32,
    pub u: i32,
    pub w: i32,
    pub j: i32,
    pub x: i32,
    pub dollar: i32,
    pub z_big: i32,
    pub ee: i32,
}

/// A one-byte slot: values above 255 are cut to 255, then the low byte kept.
pub open spec fn byte_slot(x: i32) -> u8 {
    (if x > 255 { 255 } else { x }) as u8
}

/// High byte of a two-byte slot (values above 65535 are cut to 65535).
pub open spec fn high_slot(x: i32) -> u8 {
    (((if x > 65535 { 65535 } else { x }) >> 8) & 0xFF) as u8
}

/// Low byte of a two-byte slot.
pub open spec fn low_slot(x: i32) -> u8 {
    ((if x > 65535 { 65535 } else { x }) & 0xFF) as u8
}

/// The 16 packed bytes: eight one-byte slots, two two-byte slots (timer and
/// time difference), four one-byte slots.
pub open spec fn ctoken_buf(c: CTokenField) -> Seq<u8> {
    seq![
        byte_slot(c.h),
        byte_slot(c.f),
        byte_slot(c.q),
        byte_slot(c.b),
        byte_slot(c.z),
        byte_slot(c.y),
        byte_slot(c.v),
        byte_slot(c.k),
        high_slot(c.g),
        low_slot(c.g),
        high_slot(c.u),
        low_slot(c.u),
        byte_slot(c.w),
        byte_slot(c.j),
        byte_slot(c.x),
        byte_slot(c.dollar),
    ]
}

/// The packed bytes, each followed by a zero byte.
pub open spec fn ctoken_bytes(c: CTokenField) -> Seq<u8> {
    Seq::new(32, |i: int| if i % 2 == 0 { ctoken_buf(c)[i / 2] } else { 0u8 })
}

/// The token text of a set of values.
pub open spec fn ctoken_text(c: CTokenField) -> Seq<char> {
    base64_standard(ctoken_bytes(c))
}

fn byte_of(x: i32) -> (r: u8)
    ensures
        r == byte_slot(x),
{
    (if x > 255 {
        255
    } else {
        x
    }) as u8
}

fn high_of(x: i32) -> (r: u8)
    ensures
        r == high_slot(x),
{
    let v = if x > 65535 {
        65535
    } else {
        x
    };
    ((v >> 8) & 0xFF) as u8
}

fn low_of(x: i32) -> (r: u8)
    ensures
        r == low_slot(x),
{
    let v = if x > 65535 {
        65535
    } else {
        x
    };
    (v & 0xFF) as u8
}

fn push_slot(out: &mut Vec<u8>, b: u8)
    ensures
        final(out)@ == old(out)@.push(b).push(0u8),
{
    out.push(b);
    out.push(0);
}

/// Whether `c` holds the values of a fresh token of page `e`: metrics 1
/// to 11, each at some clock reading, and every counter zero.
pub open spec fn fresh_token(c: CTokenField, e: EncodeData) -> bool {
    &&& c.f == 0 && c.b == 0 && c.v == 0 && c.g == 0 && c.u == 0
    &&& exists|t: u64| c.h == #[trigger] metric(e, 1, t)
    &&& exists|t: u64| c.q == #[trigger] metric(e, 2, t)
    &&& exists|t: u64| c.z == #[trigger] metric(e, 3, t)
    &&& exists|t: u64| c.y == #[trigger] metric(e, 4, t)
    &&& exists|t: u64| c.k == #[trigger] metric(e, 5, t)
    &&& exists|t: u64| c.w == #[trigger] metric(e, 6, t)
    &&& exists|t: u64| c.j == #[trigger] metric(e, 7, t)
    &&& exists|t: u64| c.x == #[trigger] metric(e, 8, t)
    &&& exists|t: u64| c.dollar == #[trigger] metric(e, 9, t)
    &&& exists|t: u64| c.z_big == #[trigger] metric(e, 10, t)
    &&& exists|t: u64| c.ee == #[trigger] metric(e, 11, t)
}

/// The user agent a token's page has where the session gives none.
pub open spec fn default_token_ua() -> Seq<char> {
    "Mozilla/5.0 (Linux; Android 14; Pixel 8) AppleWebKit/537.36"@
}

/// The page a token is made for.
pub open spec fn token_href() -> Seq<char> {
    "https://show.bilibili.com"@
}

impl CTokenField {
    /// Values of a fresh token: the metrics 1 to 11 at the current clock,
    /// every counter zero.
    pub fn from_encode_data(ecdata: &EncodeData) -> (r: Self)
        requires
            encodable(*ecdata),
        ensures
            fresh_token(r, *ecdata),
    {
        assert(forall|t: u64| #[trigger] metric_fits(*ecdata, 1, t));
        assert(forall|t: u64| #[trigger] metric_fits(*ecdata, 2, t));
        assert(forall|t: u64| #[trigger] metric_fits(*ecdata, 3, t));
        assert(forall|t: u64| #[trigger] metric_fits(*ecdata, 4, t));
        assert(forall|t: u64| #[trigger] metric_fits(*ecdata, 5, t));
        assert(forall|t: u64| #[trigger] metric_fits(*ecdata, 6, t));
        assert(forall|t: u64| #[trigger] metric_fits(*ecdata, 7, t));
        assert(forall|t: u64| #[trigger] metric_fits(*ecdata, 8, t));
        assert(forall|t: u64| #[trigger] metric_fits(*ecdata, 9, t));
        assert(forall|t: u64| #[trigger] metric_fits(*ecdata, 10, t));
        assert(forall|t: u64| #[trigger] metric_fits(*ecdata, 11, t));
        CTokenField {
            h: ecdata.encode(1),
            f: 0,
            y: ecdata.encode(4),
            b: 0,
            z: ecdata.encode(3),
            q: ecdata.encode(2),
            v: 0,
            k: ecdata.encode(5),
            g: 0,
            u: 0,
            w: ecdata.encode(6),
            j: ecdata.encode(7),
            x: ecdata.encode(8),
            dollar: ecdata.encode(9),
            z_big: ecdata.encode(10),
            ee: ecdata.encode(11),
        }
    }

    /// The 32 token bytes.
    pub fn token_bytes(&self) -> (r: Vec<u8>)
        ensures
            r@ == ctoken_bytes(*self),
    {
        let mut out: Vec<u8> = Vec::new();
        push_slot(&mut out, byte_of(self.h));
        push_slot(&mut out, byte_of(self.f));
        push_slot(&mut out, byte_of(self.q));
        push_slot(&mut out, byte_of(self.b));
        push_slot(&mut out, byte_of(self.z));
        push_slot(&mut out, byte_of(self.y));
        push_slot(&mut out, byte_of(self.v));
        push_slot(&mut out, byte_of(self.k));
        push_slot(&mut out, high_of(self.g));
        push_slot(&mut out, low_of(self.g));
        push_slot(&mut out, high_of(self.u));
        push_slot(&mut out, low_of(self.u));
        push_slot(&mut out, byte_of(self.w));
        push_slot(&mut out, byte_of(self.j));
        push_slot(&mut out, byte_of(self.x));
        push_slot(&mut out, byte_of(self.dollar));
        assert(out@ =~= ctoken_bytes(*self));
        out
    }

    /// The token text.
    pub fn encode(&self) -> (s: String)
        ensures
            s@ == ctoken_text(*self),
    {
        let bytes = self.token_bytes();
        base64_encode(bytes.as_slice())
    }
}

/// Whether the interaction counters are in the ranges a submission draws them from.
pub open spec fn counters_ok(is_create_v2: bool, touches: i32, visibility: i32, windows: i32) -> bool {
    &&& (is_create_v2 ==> 0 <= touches < 3 && 0 <= visibility < 2 && 10 <= windows < 51)
    &&& (!is_create_v2 ==> 1 <= windows < 4)
}

/// Token values after a submission `elapsed` seconds in.
pub open spec fn submitted(c: CTokenField, base: i32, is_create_v2: bool, elapsed: i32, touches: i32, visibility: i32, windows: i32) -> CTokenField {
    CTokenField {
        f: if is_create_v2 { touches } else { 0 },
        b: if is_create_v2 { visibility } else { 0 },
        v: windows,
        g: base.wrapping_add(elapsed),
        u: if is_create_v2 { elapsed } else { 0 },
        ..c
    }
}

/// Whole seconds from `made_ms` to the clock reading `now_ms` (none where
/// the clock went back), cut to 32 bits as `as i32` does.
pub open spec fn elapsed_secs(now_ms: i64, made_ms: i64) -> i32 {
    let d = now_ms - made_ms;
    ((if d < 0 { 0 } else { d }) / 1000) as i32
}

/// The seconds a token counts are never negative while the clock reads
/// less than about 68 years after the generator was made.
pub proof fn law_elapsed_not_negative(now_ms: i64, made_ms: i64)
    requires
        now_ms - made_ms < 2147483648000,
    ensures
        0 <= elapsed_secs(now_ms, made_ms),
        now_ms >= made_ms ==> elapsed_secs(now_ms, made_ms) == (now_ms - made_ms) / 1000,
{
}

/// Makes the tokens of one purchase attempt.
pub struct CTokenGenerator {
    field: CTokenField,
    when_gen_ms: i64,
    last_submit_ms: i64,
    base_timer: i32,
}

impl CTokenGenerator {
    /// The current token values.
    pub closed spec fn values(&self) -> CTokenField {
        self.field
    }

    /// The timer base, in seconds.
    pub closed spec fn timer_base(&self) -> i32 {
        self.base_timer
    }

    /// The clock reading, in milliseconds, at which the generator was made.
    pub closed spec fn made_at_ms(&self) -> i64 {
        self.when_gen_ms
    }

    /// A generator for a fresh page view with user agent `ua` (a mobile
    /// Chrome where none is given).
    pub fn new(_ticket_collection_t: i64, _time_offset: i64, _stay_time: i32, ua: Option<String>) -> (r: Self)
        requires
            ua matches Some(u) ==> encode_utf8(u@).len() <= 0x7fff0000,
        ensures
            10 <= r.timer_base() < 101,
            exists|e: EncodeData|
                {
                    &&& #[trigger] fresh_page(e)
                    &&& e.ua@ == match ua {
                        Some(u) => u@,
                        None => default_token_ua(),
                    }
                    &&& e.href@ == token_href()
                    &&& fresh_token(r.values(), e)
                },
    {
        let ua = match ua {
            Some(u) => u,
            None => String::from_str("Mozilla/5.0 (Linux; Android 14; Pixel 8) AppleWebKit/537.36"),
        };
        let ecdata = EncodeData::new(ua, String::from_str("https://show.bilibili.com"));
        proof {
            let n = encode_utf8(ecdata.ua@).len();
            assert(n <= 0x7fff0000) by {
                reveal_strlit("Mozilla/5.0 (Linux; Android 14; Pixel 8) AppleWebKit/537.36");
                if ecdata.ua@ == "Mozilla/5.0 (Linux; Android 14; Pixel 8) AppleWebKit/537.36"@ {
                    assert(vstd::utf8::is_ascii_chars(ecdata.ua@));
                    vstd::utf8::is_ascii_chars_encode_utf8(ecdata.ua@);
                }
            }
            assert(((n as usize) as i32) as int == n as int);
            assert forall|i: nat, t: u64| 1 <= i <= 11 implies #[trigger] metric_fits(ecdata, i, t) by {
                let tb = metric_table(ecdata, t);
                assert(0 <= tb[12] <= 0x7fff0000);
            }
        }
        let now = utc_now_millis();
        CTokenGenerator {
            field: CTokenField::from_encode_data(&ecdata),
            when_gen_ms: now,
            last_submit_ms: now,
            base_timer: random_i32_in(10, 101),
        }
    }

    /// Sets the interaction counters for a submission `elapsed_secs` after
    /// the generator was made: for an order (`is_create_v2`) the touch,
    /// visibility and unload counters and the time difference; for a
    /// preparation no touches, no visibility changes and one to three
    /// opened windows.
    pub fn record_submission(&mut self, is_create_v2: bool, elapsed_secs: i32, touches: i32, visibility: i32, windows: i32)
        requires
            counters_ok(is_create_v2, touches, visibility, windows),
        ensures
            final(self).timer_base() == old(self).timer_base(),
            final(self).made_at_ms() == old(self).made_at_ms(),
            final(self).values() == submitted(
                old(self).values(),
                old(self).timer_base(),
                is_create_v2,
                elapsed_secs,
                touches,
                visibility,
                windows,
            ),
    {
        if is_create_v2 {
            self.field.f = touches;
            self.field.b = visibility;
            self.field.v = windows;
            self.field.g = self.base_timer.wrapping_add(elapsed_secs);
            self.field.u = elapsed_secs;
        } else {
            self.field.f = 0;
            self.field.b = 0;
            self.field.v = windows;
            self.field.g = self.base_timer.wrapping_add(elapsed_secs);
            self.field.u = 0;
        }
    }

    /// A token for a submission now: the counters are set as
    /// `record_submission` says, with random counters and the whole
    /// seconds since the generator was made.
    pub fn generate_ctoken(&mut self, is_create_v2: bool) -> (s: String)
        ensures
            final(self).timer_base() == old(self).timer_base(),
            final(self).made_at_ms() == old(self).made_at_ms(),
            s@ == ctoken_text(final(self).values()),
            exists|now_ms: i64, touches: i32, visibility: i32, windows: i32|
                counters_ok(is_create_v2, touches, visibility, windows) && final(self).values()
                    == #[trigger] submitted(
                    old(self).values(),
                    old(self).timer_base(),
                    is_create_v2,
                    elapsed_secs(now_ms, old(self).made_at_ms()),
                    touches,
                    visibility,
                    windows,
                ),
    {
        let now = utc_now_millis();
        let diff: i128 = (now as i128) - (self.when_gen_ms as i128);
        let elapsed_ms: i128 = if diff < 0 {
            0
        } else {
            diff
        };
        let elapsed = #[verifier::truncate] ((elapsed_ms / 1000) as i32);
        assert(elapsed == elapsed_secs(now, self.made_at_ms()));
        let (touches, visibility, windows) = if is_create_v2 {
            (random_i32_in(0, 3), random_i32_in(0, 2), random_i32_in(10, 51))
        } else {
            (0, 0, random_i32_in(1, 4))
        };
        self.record_submission(is_create_v2, elapsed, touches, visibility, windows);
        self.last_submit_ms = now;
        self.field.encode()
    }
}

} // verus!
