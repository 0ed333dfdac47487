//! Base64 text of byte strings, by the `base64` crate's standard engine
//! (RFC 4648 alphabet, `=` padding, canonical decoding).

use vstd::prelude::*;
use base64::Engine;

verus! {

/// The character of a 6-bit value in the standard alphabet.
pub open spec fn b64_digit(v: int) -> char {
    if v < 26 {
        (65 + v) as char
    } else if v < 52 {
        (97 + v - 26) as char
    } else if v < 62 {
        (48 + v - 52) as char
    } else if v == 62 {
        '+'
    } else {
        '/'
    }
}

/// Standard padded base64 text of `data`: each group of three bytes as four
/// characters of six bits each, a last group of one or two bytes padded
/// with `=`.
pub open spec fn base64_standard(data: Seq<u8>) -> Seq<char>
    decreases data.len(),
{
    if data.len() == 0 {
        Seq::empty()
    } else if data.len() == 1 {
        let a = data[0] as int;
        seq![b64_digit(a / 4), b64_digit((a % 4) * 16), '=', '=']
    } else if data.len() == 2 {
        let a = data[0] as int;
        let b = data[1] as int;
        seq![b64_digit(a / 4), b64_digit((a % 4) * 16 + b / 16), b64_digit((b % 16) * 4), '=']
    } else {
        let a = data[0] as int;
        let b = data[1] as int;
        let c = data[2] as int;
        seq![b64_digit(a / 4), b64_digit((a % 4) * 16 + b / 16), b64_digit((b % 16) * 4 + c / 64), b64_digit(c % 64)]
            + base64_standard(data.subrange(3, data.len() as int))
    }
}

/// The bytes whose standard base64 text is `text`; `None` where `text` is
/// no such text (the standard engine decodes canonical text only).
pub open spec fn base64_decoded(text: Seq<char>) -> Option<Seq<u8>> {
    if exists|d: Seq<u8>| #[trigger] base64_standard(d) == text {
        Some(choose|d: Seq<u8>| #[trigger] base64_standard(d) == text)
    } else {
        None
    }
}

/// The characters standard base64 text is written with.
pub open spec fn is_base64_char(c: char) -> bool {
    ||| ('A' <= c && c <= 'Z')
    ||| ('a' <= c && c <= 'z')
    ||| ('0' <= c && c <= '9')
    ||| c == '+'
    ||| c == '/'
    ||| c == '='
}

proof fn lemma_digit(v: int)
    requires
        0 <= v < 64,
    ensures
        is_base64_char(b64_digit(v)),
        b64_digit(v) != '=',
{
}

proof fn lemma_digit_injective(v: int, w: int)
    requires
        0 <= v < 64,
        0 <= w < 64,
        b64_digit(v) == b64_digit(w),
    ensures
        v == w,
{
    assert(b64_digit(v) as int == b64_digit(w) as int);
}

/// Standard base64 text is written in the standard alphabet.
pub proof fn lemma_base64_alphabet(data: Seq<u8>)
    ensures
        forall|i: int| 0 <= i < base64_standard(data).len() ==> is_base64_char(#[trigger] base64_standard(data)[i]),
    decreases data.len(),
{
    let s = base64_standard(data);
    if data.len() == 0 {
    } else if data.len() <= 2 {
        let a = data[0] as int;
        lemma_digit(a / 4);
        lemma_digit((a % 4) * 16);
        if data.len() == 2 {
            let b = data[1] as int;
            lemma_digit((a % 4) * 16 + b / 16);
            lemma_digit((b % 16) * 4);
        }
    } else {
        let a = data[0] as int;
        let b = data[1] as int;
        let c = data[2] as int;
        lemma_digit(a / 4);
        lemma_digit((a % 4) * 16 + b / 16);
        lemma_digit((b % 16) * 4 + c / 64);
        lemma_digit(c % 64);
        let rest = data.subrange(3, data.len() as int);
        lemma_base64_alphabet(rest);
        assert forall|i: int| 0 <= i < s.len() implies is_base64_char(#[trigger] s[i]) by {
            if i >= 4 {
                assert(s[i] == base64_standard(rest)[i - 4]);
            }
        }
    }
}

/// The first four characters of nonempty `data`'s text.
proof fn lemma_first_group(data: Seq<u8>)
    requires
        data.len() > 0,
    ensures
        ({
            let s = base64_standard(data);
            let a = data[0] as int;
            let b = if data.len() >= 2 { data[1] as int } else { 0 };
            let c = if data.len() >= 3 { data[2] as int } else { 0 };
            &&& s.len() >= 4
            &&& s[0] == b64_digit(a / 4)
            &&& s[1] == b64_digit((a % 4) * 16 + b / 16)
            &&& s[2] == if data.len() == 1 { '=' } else { b64_digit((b % 16) * 4 + c / 64) }
            &&& s[3] == if data.len() <= 2 { '=' } else { b64_digit(c % 64) }
        }),
{
}

/// Different bytes have different standard base64 texts.
pub proof fn lemma_base64_injective(x: Seq<u8>, y: Seq<u8>)
    requires
        base64_standard(x) == base64_standard(y),
    ensures
        x == y,
    decreases x.len(),
{
    let s = base64_standard(x);
    if x.len() > 0 && y.len() > 0 {
        lemma_first_group(x);
        lemma_first_group(y);
    }
    if x.len() == 0 || y.len() == 0 {
        assert(x.len() == 0 && y.len() == 0) by {
            if x.len() > 0 {
                assert(s.len() >= 4);
            }
            if y.len() > 0 {
                assert(base64_standard(y).len() >= 4);
            }
        }
        assert(x =~= y);
        return;
    }
    let a = x[0] as int;
    let a2 = y[0] as int;
    lemma_digit(a / 4);
    lemma_digit(a2 / 4);
    lemma_digit_injective(a / 4, a2 / 4);
    let b = if x.len() >= 2 { x[1] as int } else { 0 };
    let b2 = if y.len() >= 2 { y[1] as int } else { 0 };
    let c = if x.len() >= 3 { x[2] as int } else { 0 };
    let c2 = if y.len() >= 3 { y[2] as int } else { 0 };
    lemma_digit((a % 4) * 16 + b / 16);
    lemma_digit((a2 % 4) * 16 + b2 / 16);
    lemma_digit_injective((a % 4) * 16 + b / 16, (a2 % 4) * 16 + b2 / 16);
    assert(a == a2 && b / 16 == b2 / 16) by (nonlinear_arith)
        requires
            0 <= a < 256,
            0 <= a2 < 256,
            0 <= b < 256,
            0 <= b2 < 256,
            a / 4 == a2 / 4,
            (a % 4) * 16 + b / 16 == (a2 % 4) * 16 + b2 / 16,
    ;
    // The third character tells one byte from more, the fourth two from more.
    lemma_digit((b % 16) * 4 + c / 64);
    lemma_digit((b2 % 16) * 4 + c2 / 64);
    assert((x.len() == 1) == (y.len() == 1)) by {
        if x.len() == 1 && y.len() >= 2 {
            assert(s[2] == '=');
        }
        if y.len() == 1 && x.len() >= 2 {
            assert(base64_standard(y)[2] == '=');
        }
    }
    if x.len() == 1 {
        assert(x =~= y);
        return;
    }
    lemma_digit_injective((b % 16) * 4 + c / 64, (b2 % 16) * 4 + c2 / 64);
    assert(b == b2 && c / 64 == c2 / 64) by (nonlinear_arith)
        requires
            0 <= b < 256,
            0 <= b2 < 256,
            0 <= c < 256,
            0 <= c2 < 256,
            b / 16 == b2 / 16,
            (b % 16) * 4 + c / 64 == (b2 % 16) * 4 + c2 / 64,
    ;
    lemma_digit(c % 64);
    lemma_digit(c2 % 64);
    assert((x.len() == 2) == (y.len() == 2)) by {
        if x.len() == 2 && y.len() >= 3 {
            assert(s[3] == '=');
        }
        if y.len() == 2 && x.len() >= 3 {
            assert(base64_standard(y)[3] == '=');
        }
    }
    if x.len() == 2 {
        assert(x =~= y);
        return;
    }
    lemma_digit_injective(c % 64, c2 % 64);
    assert(c == c2) by (nonlinear_arith)
        requires
            0 <= c < 256,
            0 <= c2 < 256,
            c / 64 == c2 / 64,
            c % 64 == c2 % 64,
    ;
    let rx = x.subrange(3, x.len() as int);
    let ry = y.subrange(3, y.len() as int);
    assert(base64_standard(rx) =~= s.subrange(4, s.len() as int));
    assert(base64_standard(ry) =~= base64_standard(y).subrange(4, s.len() as int));
    lemma_base64_injective(rx, ry);
    assert(x =~= seq![x[0], x[1], x[2]] + rx);
    assert(y =~= seq![y[0], y[1], y[2]] + ry);
}

/// Decoding the standard base64 text of `data` gives `data` back.
pub proof fn law_base64_decodes_back(data: Seq<u8>)
    ensures
        base64_decoded(base64_standard(data)) == Some(data),
{
    let t = base64_standard(data);
    assert(exists|d: Seq<u8>| #[trigger] base64_standard(d) == t);
    let d = choose|d: Seq<u8>| #[trigger] base64_standard(d) == t;
    lemma_base64_injective(d, data);
}

/// `base64::engine::general_purpose::STANDARD.encode(data)`.
#[verifier::external_body]
pub(crate) fn base64_encode(data: &[u8]) -> (s: String)
    ensures
        s@ == base64_standard(data@),
{
    base64::engine::general_purpose::STANDARD.encode(data)
}

/// `base64::engine::general_purpose::STANDARD.decode(text)`, `None` on
/// error: the engine (padding required and canonical, no trailing bits)
/// accepts exactly the standard texts of byte strings.
#[verifier::external_body]
pub(crate) fn base64_decode(text: &str) -> (r: Option<Vec<u8>>)
    ensures
        match r {
            Some(b) => base64_decoded(text@) == Some(b@),
            None => base64_decoded(text@) is None,
        },
{
    base64::engine::general_purpose::STANDARD.decode(text).ok()
}

} // verus!
