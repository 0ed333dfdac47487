//! Calls into outside crates whose results depend on chance, time or the
//! machine. Each states only what holds of every outcome.

use vstd::prelude::*;
use rand::Rng;

verus! {

/// `rand::Rng::gen_range(lo..hi)` on `rand::thread_rng()`: a value in `lo..hi`.
#[verifier::external_body]
pub(crate) fn random_u32_in(lo: u32, hi: u32) -> (r: u32)
    requires
        lo < hi,
    ensures
        lo <= r < hi,
{
    rand::thread_rng().gen_range(lo..hi)
}

} // verus!

verus! {

/// The text of a version-4 UUID: 36 characters, lowercase hex digits in
/// groups of 8-4-4-4-12 split by `-`, the version digit `4` and a variant
/// digit of `8`, `9`, `a` or `b`.
pub open spec fn is_uuid_v4_text(s: Seq<char>) -> bool {
    &&& s.len() == 36
    &&& forall|i: int| 0 <= i < 36 ==> (if i == 8 || i == 13 || i == 18 || i == 23 {
        #[trigger] s[i] == '-'
    } else {
        crate::text::is_lower_hex_digit(s[i])
    })
    &&& s[14] == '4'
    &&& (s[19] == '8' || s[19] == '9' || s[19] == 'a' || s[19] == 'b')
}

/// `uuid::Uuid::new_v4().to_string()`: a random version-4 UUID (version and
/// variant bits set by `new_v4`) in the lowercase hyphenated form that its
/// `Display` writes.
#[verifier::external_body]
pub(crate) fn new_task_id() -> (id: String)
    ensures
        is_uuid_v4_text(id@),
{
    uuid::Uuid::new_v4().to_string()
}

} // verus!

verus! {

/// `rand::Rng::gen_range(lo..hi)` on `rand::thread_rng()` for `i32`: a value in `lo..hi`.
#[verifier::external_body]
pub(crate) fn random_i32_in(lo: i32, hi: i32) -> (r: i32)
    requires
        lo < hi,
    ensures
        lo <= r < hi,
{
    rand::thread_rng().gen_range(lo..hi)
}

/// `chrono::Utc::now().timestamp_millis()`: the clock, in milliseconds since
/// the Unix epoch. Nothing is stated of the value.
#[verifier::external_body]
pub(crate) fn utc_now_millis() -> (t: i64) {
    chrono::Utc::now().timestamp_millis()
}

/// `chrono::Utc::now().timestamp()`: the clock, in seconds since the Unix
/// epoch. Nothing is stated of the value.
#[verifier::external_body]
pub(crate) fn utc_now_secs() -> (t: i64) {
    chrono::Utc::now().timestamp()
}

/// `rand::Rng::fill` of a 16-byte array on `rand::thread_rng()`: sixteen
/// random bytes.
#[verifier::external_body]
pub(crate) fn random_iv() -> (iv: Vec<u8>)
    ensures
        iv@.len() == 16,
{
    let mut iv = [0u8; 16];
    rand::thread_rng().fill(&mut iv[..]);
    iv.to_vec()
}

} // verus!
