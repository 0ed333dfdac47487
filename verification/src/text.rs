//! Small text helpers shared by the other modules.

use vstd::prelude::*;

verus! {

/// `String::push` appends one character.
pub assume_specification[ String::push ](s: &mut String, ch: char)
    ensures
        final(s)@ == old(s)@.push(ch),
;

/// The lowercase hex digit of a value below 16.
pub open spec fn hex_digit(v: u8) -> char {
    if v < 10 {
        (v + 48) as char
    } else {
        (v + 87) as char
    }
}

/// `0-9` or `a-f`.
pub open spec fn is_lower_hex_digit(c: char) -> bool {
    ('0' <= c && c <= '9') || ('a' <= c && c <= 'f')
}

pub proof fn lemma_hex_digit_is_hex(v: u8)
    requires
        v < 16,
    ensures
        is_lower_hex_digit(hex_digit(v)),
{
}

pub fn hex_char(v: u8) -> (c: char)
    requires
        v < 16,
    ensures
        c == hex_digit(v),
{
    if v < 10 {
        (v + 48) as char
    } else {
        (v + 87) as char
    }
}

pub fn push_char(s: &mut String, c: char)
    ensures
        final(s)@ == old(s)@.push(c),
{
    s.push(c);
}

} // verus!

verus! {

/// The characters of `s`, in order.
pub fn chars_of(s: &str) -> (v: Vec<char>)
    ensures
        v@ == s@,
{
    let mut v: Vec<char> = Vec::new();
    for c in it: s.chars()
        invariant
            v@ == it.seq().take(it.index() as int),
    {
        v.push(c);
    }
    v
}


/// A `String` holding `v[lo..hi]`.
pub fn string_of(v: &Vec<char>, lo: usize, hi: usize) -> (s: String)
    requires
        lo <= hi <= v@.len(),
    ensures
        s@ == v@.subrange(lo as int, hi as int),
{
    let mut s = String::new();
    let mut i = lo;
    while i < hi
        invariant
            lo <= i <= hi <= v@.len(),
            s@ == v@.subrange(lo as int, i as int),
        decreases hi - i,
    {
        s.push(v[i]);
        assert(v@.subrange(lo as int, i + 1) =~= v@.subrange(lo as int, i as int).push(v@[i as int]));
        i = i + 1;
    }
    s
}

/// Appends the characters of `t` to `s`.
pub fn push_str(s: &mut String, t: &str)
    ensures
        final(s)@ == old(s)@ + t@,
{
    s.append(t);
}

/// Index of the first occurrence of `c` in `s`.
pub open spec fn first_index(s: Seq<char>, c: char) -> Option<nat>
    decreases s.len(),
{
    if s.len() == 0 {
        None
    } else if s[0] == c {
        Some(0)
    } else {
        match first_index(s.drop_first(), c) {
            Some(i) => Some(i + 1),
            None => None,
        }
    }
}

pub proof fn lemma_first_index(s: Seq<char>, c: char)
    ensures
        first_index(s, c) matches Some(i) ==> i < s.len() && s[i as int] == c && forall|j: int|
            0 <= j < i ==> s[j] != c,
        first_index(s, c) is None ==> forall|j: int| 0 <= j < s.len() ==> s[j] != c,
    decreases s.len(),
{
    if s.len() > 0 {
        lemma_first_index(s.drop_first(), c);
        if s[0] != c {
            assert forall|j: int| 1 <= j < s.len() implies s[j] == s.drop_first()[j - 1] by {}
        }
    }
}

pub proof fn lemma_first_index_char(s: Seq<char>, c: char, i: int)
    requires
        0 <= i < s.len(),
        s[i] == c,
        forall|j: int| 0 <= j < i ==> s[j] != c,
    ensures
        first_index(s, c) == Some(i as nat),
    decreases i,
{
    if i > 0 {
        lemma_first_index_char(s.drop_first(), c, i - 1);
    }
}

pub proof fn lemma_first_index_none(s: Seq<char>, c: char)
    requires
        forall|j: int| 0 <= j < s.len() ==> s[j] != c,
    ensures
        first_index(s, c) is None,
    decreases s.len(),
{
    if s.len() > 0 {
        lemma_first_index_none(s.drop_first(), c);
    }
}

/// First index of `c` in `v[lo..hi]`, relative to `lo`.
pub fn find_char(v: &Vec<char>, lo: usize, hi: usize, c: char) -> (r: Option<usize>)
    requires
        lo <= hi <= v@.len(),
    ensures
        match r {
            Some(i) => first_index(v@.subrange(lo as int, hi as int), c) == Some(i as nat),
            None => first_index(v@.subrange(lo as int, hi as int), c) is None,
        },
{
    let ghost s = v@.subrange(lo as int, hi as int);
    let mut i = lo;
    while i < hi
        invariant
            lo <= i <= hi <= v@.len(),
            s == v@.subrange(lo as int, hi as int),
            forall|j: int| 0 <= j < i - lo ==> s[j] != c,
        decreases hi - i,
    {
        if v[i] == c {
            proof {
                lemma_first_index_char(s, c, i - lo);
            }
            return Some(i - lo);
        }
        i = i + 1;
    }
    proof {
        lemma_first_index_none(s, c);
    }
    None
}

/// Unicode `White_Space`, as `char::is_whitespace` documents it.
pub open spec fn is_ws(c: char) -> bool {
    ||| c == '\t'
    ||| c == '\n'
    ||| c == '\u{0B}'
    ||| c == '\u{0C}'
    ||| c == '\r'
    ||| c == ' '
    ||| c == '\u{85}'
    ||| c == '\u{A0}'
    ||| c == '\u{1680}'
    ||| ('\u{2000}' <= c && c <= '\u{200A}')
    ||| c == '\u{2028}'
    ||| c == '\u{2029}'
    ||| c == '\u{202F}'
    ||| c == '\u{205F}'
    ||| c == '\u{3000}'
}

pub fn is_whitespace(c: char) -> (b: bool)
    ensures
        b == is_ws(c),
{
    c == '\t' || c == '\n' || c == '\u{0B}' || c == '\u{0C}' || c == '\r' || c == ' '
        || c == '\u{85}' || c == '\u{A0}' || c == '\u{1680}' || ('\u{2000}' <= c && c
        <= '\u{200A}') || c == '\u{2028}' || c == '\u{2029}' || c == '\u{202F}' || c
        == '\u{205F}' || c == '\u{3000}'
}

/// `s` without leading whitespace.
pub open spec fn trim_start(s: Seq<char>) -> Seq<char>
    decreases s.len(),
{
    if s.len() > 0 && is_ws(s[0]) {
        trim_start(s.drop_first())
    } else {
        s
    }
}

/// `s` without trailing whitespace.
pub open spec fn trim_end(s: Seq<char>) -> Seq<char>
    decreases s.len(),
{
    if s.len() > 0 && is_ws(s.last()) {
        trim_end(s.drop_last())
    } else {
        s
    }
}

/// `str::trim`: whitespace removed from both ends.
pub open spec fn trim(s: Seq<char>) -> Seq<char> {
    trim_end(trim_start(s))
}

proof fn lemma_trim_start_skip(s: Seq<char>, i: int)
    requires
        0 <= i <= s.len(),
        forall|j: int| 0 <= j < i ==> is_ws(s[j]),
        i == s.len() || !is_ws(s[i]),
    ensures
        trim_start(s) == s.subrange(i, s.len() as int),
    decreases i,
{
    if i == 0 {
        assert(s.subrange(0, s.len() as int) =~= s);
    } else {
        lemma_trim_start_skip(s.drop_first(), i - 1);
        assert(s.drop_first().subrange(i - 1, s.len() - 1) =~= s.subrange(i, s.len() as int));
    }
}

proof fn lemma_trim_end_skip(s: Seq<char>, k: int)
    requires
        0 <= k <= s.len(),
        forall|j: int| k <= j < s.len() ==> is_ws(s[j]),
        k == 0 || !is_ws(s[k - 1]),
    ensures
        trim_end(s) == s.subrange(0, k),
    decreases s.len() - k,
{
    if k == s.len() {
        assert(s.subrange(0, k) =~= s);
    } else {
        lemma_trim_end_skip(s.drop_last(), k);
        assert(s.drop_last().subrange(0, k) =~= s.subrange(0, k));
    }
}

/// Bounds of `trim(v[lo..hi])` inside `v`.
pub fn trim_bounds(v: &Vec<char>, lo: usize, hi: usize) -> (r: (usize, usize))
    requires
        lo <= hi <= v@.len(),
    ensures
        lo <= r.0 <= r.1 <= hi,
        v@.subrange(r.0 as int, r.1 as int) == trim(v@.subrange(lo as int, hi as int)),
{
    let ghost s = v@.subrange(lo as int, hi as int);
    let mut a = lo;
    while a < hi && is_whitespace(v[a])
        invariant
            lo <= a <= hi <= v@.len(),
            s == v@.subrange(lo as int, hi as int),
            forall|j: int| 0 <= j < a - lo ==> is_ws(s[j]),
        decreases hi - a,
    {
        a = a + 1;
    }
    proof {
        lemma_trim_start_skip(s, a - lo);
    }
    let ghost t = v@.subrange(a as int, hi as int);
    assert(s.subrange(a - lo, s.len() as int) =~= t);
    let mut b = hi;
    while b > a && is_whitespace(v[b - 1])
        invariant
            lo <= a <= b <= hi <= v@.len(),
            t == v@.subrange(a as int, hi as int),
            forall|j: int| b - a <= j < t.len() ==> is_ws(t[j]),
        decreases b - a,
    {
        b = b - 1;
    }
    proof {
        lemma_trim_end_skip(t, b - a);
        assert(t.subrange(0, b - a) =~= v@.subrange(a as int, b as int));
    }
    (a, b)
}

/// `str::split` on one character: the pieces between occurrences of `sep`.
pub open spec fn split_on(s: Seq<char>, sep: char) -> Seq<Seq<char>>
    decreases s.len(),
{
    match first_index(s, sep) {
        Some(i) => {
            if i < s.len() {
                seq![s.subrange(0, i as int)] + split_on(s.subrange((i + 1) as int, s.len() as int), sep)
            } else {
                seq![s]
            }
        },
        None => seq![s],
    }
}

proof fn lemma_first_index_shift(cur: Seq<char>, rest: Seq<char>, c: char)
    requires
        forall|j: int| 0 <= j < cur.len() ==> cur[j] != c,
    ensures
        first_index(cur + rest, c) == (match first_index(rest, c) {
            Some(i) => Some(i + cur.len()),
            None => None::<nat>,
        }),
    decreases cur.len(),
{
    if cur.len() > 0 {
        lemma_first_index_shift(cur.drop_first(), rest, c);
        assert((cur + rest).drop_first() =~= cur.drop_first() + rest);
    } else {
        assert(cur + rest =~= rest);
    }
}

/// The pieces of `v[lo..hi]` split on `sep`, as index ranges into `v`.
pub fn split_ranges(v: &Vec<char>, lo: usize, hi: usize, sep: char) -> (r: Vec<(usize, usize)>)
    requires
        lo <= hi <= v@.len(),
    ensures
        r@.len() == split_on(v@.subrange(lo as int, hi as int), sep).len(),
        forall|k: int|
            0 <= k < r@.len() ==> lo <= (#[trigger] r@[k]).0 <= r@[k].1 <= hi && v@.subrange(
                r@[k].0 as int,
                r@[k].1 as int,
            ) == split_on(v@.subrange(lo as int, hi as int), sep)[k],
{
    let ghost whole = v@.subrange(lo as int, hi as int);
    let mut parts: Vec<(usize, usize)> = Vec::new();
    let mut start = lo;
    let mut i = lo;
    while i < hi
        invariant
            lo <= start <= i <= hi <= v@.len(),
            whole == v@.subrange(lo as int, hi as int),
            forall|j: int| start <= j < i ==> v@[j] != sep,
            forall|k: int|
                0 <= k < parts@.len() ==> lo <= (#[trigger] parts@[k]).0 <= parts@[k].1 <= hi,
            split_on(whole, sep) =~= parts@.map_values(
                |p: (usize, usize)| v@.subrange(p.0 as int, p.1 as int),
            ) + split_on(v@.subrange(start as int, hi as int), sep),
        decreases hi - i,
    {
        if v[i] == sep {
            let ghost cur = v@.subrange(start as int, i as int);
            let ghost rest = v@.subrange(i as int, hi as int);
            proof {
                assert(v@.subrange(start as int, hi as int) =~= cur + rest);
                lemma_first_index_shift(cur, rest, sep);
                lemma_first_index_char(rest, sep, 0);
                assert(v@.subrange(start as int, hi as int).subrange(0, cur.len() as int) =~= cur);
                assert(v@.subrange(start as int, hi as int).subrange((cur.len() + 1) as int, (hi - start) as int)
                    =~= v@.subrange(i + 1, hi as int));
            }
            let ghost old_parts = parts@;
            parts.push((start, i));
            proof {
                assert(parts@.map_values(|p: (usize, usize)| v@.subrange(p.0 as int, p.1 as int))
                    =~= old_parts.map_values(|p: (usize, usize)| v@.subrange(p.0 as int, p.1 as int))
                    + seq![cur]);
            }
            start = i + 1;
        }
        i = i + 1;
    }
    proof {
        let last = v@.subrange(start as int, hi as int);
        assert forall|j: int| 0 <= j < last.len() implies last[j] != sep by {
            assert(last[j] == v@[start + j]);
        }
        lemma_first_index_none(last, sep);
    }
    let ghost old_parts = parts@;
    parts.push((start, hi));
    proof {
        assert(parts@.map_values(|p: (usize, usize)| v@.subrange(p.0 as int, p.1 as int))
            =~= old_parts.map_values(|p: (usize, usize)| v@.subrange(p.0 as int, p.1 as int))
            + seq![v@.subrange(start as int, hi as int)]);
        assert forall|k: int| 0 <= k < parts@.len() implies v@.subrange(
            parts@[k].0 as int,
            parts@[k].1 as int,
        ) == split_on(whole, sep)[k] by {
            assert(parts@.map_values(|p: (usize, usize)| v@.subrange(p.0 as int, p.1 as int))[k]
                == v@.subrange(parts@[k].0 as int, parts@[k].1 as int));
        }
    }
    parts
}


/// The decimal digit character of `d < 10`.
pub open spec fn digit_char(d: nat) -> char {
    (d + 48) as char
}

/// Decimal digits of `n`, most significant first, without leading zeros.
pub open spec fn digits_of(n: nat) -> Seq<char>
    decreases n,
{
    if n < 10 {
        seq![digit_char(n)]
    } else {
        digits_of(n / 10).push(digit_char(n % 10))
    }
}

/// `{}` of an integer: a `-` for negative values, then the digits.
pub open spec fn decimal(x: int) -> Seq<char> {
    if x < 0 {
        seq!['-'] + digits_of((-x) as nat)
    } else {
        digits_of(x as nat)
    }
}

/// The digits of a number are decimal digits, at least one.
pub proof fn lemma_digits_shape(n: nat)
    ensures
        digits_of(n).len() >= 1,
        n >= 10 ==> digits_of(n).len() >= 2,
        forall|i: int| 0 <= i < digits_of(n).len() ==> '0' <= #[trigger] digits_of(n)[i] && digits_of(n)[i] <= '9',
    decreases n,
{
    if n >= 10 {
        lemma_digits_shape(n / 10);
        let d = digits_of(n / 10);
        assert forall|i: int| 0 <= i < digits_of(n).len() implies '0' <= #[trigger] digits_of(n)[i] && digits_of(
            n,
        )[i] <= '9' by {
            if i < d.len() {
                assert(digits_of(n)[i] == d[i]);
            }
        }
    }
}

/// Different numbers have different digits.
pub proof fn lemma_digits_injective(m: nat, n: nat)
    requires
        digits_of(m) == digits_of(n),
    ensures
        m == n,
    decreases m + n,
{
    lemma_digits_shape(m);
    lemma_digits_shape(n);
    if m < 10 && n < 10 {
        assert(digits_of(m)[0] == digit_char(m));
        assert(digits_of(n)[0] == digit_char(n));
        assert(digit_char(m) == digit_char(n));
        assert(digit_char(m) as int == m + 48);
        assert(digit_char(n) as int == n + 48);
    } else if m >= 10 && n >= 10 {
        assert(digits_of(m).last() == digit_char(m % 10));
        assert(digits_of(n).last() == digit_char(n % 10));
        assert(digit_char(m % 10) as int == m % 10 + 48);
        assert(digit_char(n % 10) as int == n % 10 + 48);
        assert(digits_of(m / 10) == digits_of(m).drop_last());
        assert(digits_of(n / 10) == digits_of(n).drop_last());
        lemma_digits_injective(m / 10, n / 10);
    } else {
        assert(digits_of(m).len() != digits_of(n).len());
    }
}

/// Different integers are written differently.
pub proof fn lemma_decimal_injective(x: int, y: int)
    requires
        decimal(x) == decimal(y),
    ensures
        x == y,
{
    if x < 0 {
        lemma_digits_shape((-x) as nat);
    } else {
        lemma_digits_shape(x as nat);
    }
    if y < 0 {
        lemma_digits_shape((-y) as nat);
    } else {
        lemma_digits_shape(y as nat);
    }
    if x < 0 && y < 0 {
        assert(digits_of((-x) as nat) == decimal(x).drop_first());
        assert(digits_of((-y) as nat) == decimal(y).drop_first());
        lemma_digits_injective((-x) as nat, (-y) as nat);
    } else if x >= 0 && y >= 0 {
        lemma_digits_injective(x as nat, y as nat);
    } else if x < 0 {
        assert(decimal(x)[0] == '-');
        assert('0' <= decimal(y)[0]);
    } else {
        assert(decimal(y)[0] == '-');
        assert('0' <= decimal(x)[0]);
    }
}

fn push_digits(s: &mut String, n: u128)
    ensures
        final(s)@ == old(s)@ + digits_of(n as nat),
    decreases n,
{
    if n >= 10 {
        push_digits(s, n / 10);
    }
    let d = (n % 10) as u8;
    s.push(((d + 48) as char));
    proof {
        if n >= 10 {
            assert(old(s)@ + digits_of(n as nat) =~= old(s)@ + digits_of((n / 10) as nat) + seq![
                digit_char((n % 10) as nat),
            ]);
        } else {
            assert(old(s)@ + digits_of(n as nat) =~= old(s)@.push(digit_char(n as nat)));
        }
    }
}

/// Appends `{}` of `x` to `s`.
pub fn push_decimal(s: &mut String, x: i128)
    requires
        x > i128::MIN,
    ensures
        final(s)@ == old(s)@ + decimal(x as int),
{
    if x < 0 {
        s.push('-');
        push_digits(s, (-x) as u128);
        assert(old(s)@.push('-') + digits_of((-x) as nat) =~= old(s)@ + decimal(x as int));
    } else {
        push_digits(s, x as u128);
    }
}

/// `x.to_string()` for a 64-bit integer.
pub fn decimal_string(x: i64) -> (s: String)
    ensures
        s@ == decimal(x as int),
{
    let mut s = String::new();
    push_decimal(&mut s, x as i128);
    assert(s@ =~= decimal(x as int));
    s
}

pub open spec fn is_digit(c: char) -> bool {
    '0' <= c && c <= '9'
}

/// Value of a string of decimal digits.
pub open spec fn digits_value(s: Seq<char>) -> nat
    decreases s.len(),
{
    if s.len() == 0 {
        0
    } else {
        digits_value(s.drop_last()) * 10 + ((s.last() as nat) - 48) as nat
    }
}

pub open spec fn all_digits(s: Seq<char>) -> bool {
    s.len() > 0 && forall|i: int| 0 <= i < s.len() ==> is_digit(#[trigger] s[i])
}

/// `str::parse::<i64>()`: an optional `+` or `-` sign, at least one decimal
/// digit and nothing else; `None` where that is not the form or the value
/// does not fit in an `i64`.
pub open spec fn parse_i64_spec(s: Seq<char>) -> Option<i64> {
    if s.len() > 0 && s[0] == '-' {
        let rest = s.drop_first();
        if all_digits(rest) && -(digits_value(rest) as int) >= i64::MIN {
            Some((-(digits_value(rest) as int)) as i64)
        } else {
            None
        }
    } else {
        let rest = if s.len() > 0 && s[0] == '+' { s.drop_first() } else { s };
        if all_digits(rest) && digits_value(rest) <= i64::MAX {
            Some(digits_value(rest) as i64)
        } else {
            None
        }
    }
}

proof fn lemma_digits_value_grows(s: Seq<char>, i: int)
    requires
        0 <= i <= s.len(),
        forall|j: int| 0 <= j < s.len() ==> is_digit(#[trigger] s[j]),
    ensures
        digits_value(s.subrange(0, i)) <= digits_value(s),
    decreases s.len() - i,
{
    if i < s.len() {
        lemma_digits_value_grows(s, i + 1);
        let t = s.subrange(0, i + 1);
        assert(t.drop_last() =~= s.subrange(0, i));
    } else {
        assert(s.subrange(0, i) =~= s);
    }
}

/// Value of the digits `v[lo..hi]`, or `None` once it exceeds `limit`.
fn digits_up_to(v: &Vec<char>, lo: usize, hi: usize, limit: u64) -> (r: Option<u64>)
    requires
        lo < hi <= v@.len(),
        limit >= 9,
    ensures
        match r {
            Some(n) => all_digits(v@.subrange(lo as int, hi as int)) && n == digits_value(
                v@.subrange(lo as int, hi as int),
            ) && n <= limit,
            None => !all_digits(v@.subrange(lo as int, hi as int)) || digits_value(
                v@.subrange(lo as int, hi as int),
            ) > limit,
        },
{
    let ghost s = v@.subrange(lo as int, hi as int);
    let mut acc: u64 = 0;
    let mut i = lo;
    while i < hi
        invariant
            lo <= i <= hi <= v@.len(),
            s == v@.subrange(lo as int, hi as int),
            forall|j: int| 0 <= j < i - lo ==> is_digit(#[trigger] s[j]),
            acc == digits_value(s.subrange(0, i - lo)),
            acc <= limit,
            limit >= 9,
        decreases hi - i,
    {
        let c = v[i];
        if !('0' <= c && c <= '9') {
            assert(!is_digit(s[i - lo]));
            return None;
        }
        let d = (c as u32 - 48) as u64;
        assert(s.subrange(0, i + 1 - lo).drop_last() =~= s.subrange(0, i - lo));
        if acc > (limit - d) / 10 {
            proof {
                assert(acc * 10 + d > limit) by (nonlinear_arith)
                    requires
                        acc > (limit - d) / 10,
                        d <= 9,
                        d <= limit,
                ;
                let ghost before = acc;
                assert(digits_value(s.subrange(0, i + 1 - lo)) > limit);
                if forall|j: int| 0 <= j < s.len() ==> is_digit(#[trigger] s[j]) {
                    lemma_digits_value_grows(s, i + 1 - lo);
                }
            }
            return None;
        }
        assert(acc * 10 + d <= limit) by (nonlinear_arith)
            requires
                acc <= (limit - d) / 10,
                d <= 9,
        ;
        acc = acc * 10 + d;
        i = i + 1;
    }
    assert(s.subrange(0, hi - lo) =~= s);
    Some(acc)
}

/// `s.parse::<i64>().ok()`.
pub fn parse_i64(s: &str) -> (r: Option<i64>)
    ensures
        r == parse_i64_spec(s@),
{
    let v = chars_of(s);
    let n = v.len();
    if n == 0 {
        return None;
    }
    if v[0] == '-' {
        if n == 1 {
            return None;
        }
        assert(v@.subrange(1, n as int) =~= s@.drop_first());
        match digits_up_to(&v, 1, n, 9223372036854775808u64) {
            Some(m) => {
                if m == 9223372036854775808u64 {
                    Some(i64::MIN)
                } else {
                    Some(-(m as i64))
                }
            },
            None => None,
        }
    } else {
        let start: usize = if v[0] == '+' {
            1
        } else {
            0
        };
        if start == n {
            return None;
        }
        assert(v@.subrange(start as int, n as int) =~= (if s@[0] == '+' {
            s@.drop_first()
        } else {
            s@
        }));
        match digits_up_to(&v, start, n, 9223372036854775807u64) {
            Some(m) => Some(m as i64),
            None => None,
        }
    }
}

} // verus!
