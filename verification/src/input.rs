//! What a settings text field keeps of what is typed into it.

use vstd::prelude::*;

verus! {

/// Characters a filtered field keeps: ASCII letters and digits, `@`, `.`,
/// `-` and `_`.
pub open spec fn allowed_input(c: char) -> bool {
    ||| ('a' <= c && c <= 'z')
    ||| ('A' <= c && c <= 'Z')
    ||| ('0' <= c && c <= '9')
    ||| c == '@'
    ||| c == '.'
    ||| c == '-'
    ||| c == '_'
}

/// `s` with only the characters `keep` admits, in order.
pub open spec fn kept_input(s: Seq<char>) -> Seq<char>
    decreases s.len(),
{
    if s.len() == 0 {
        s
    } else if allowed_input(s.last()) {
        kept_input(s.drop_last()).push(s.last())
    } else {
        kept_input(s.drop_last())
    }
}

/// The text a field holds after an edit: filtered where the field filters,
/// else unchanged.
pub fn filter_input(text: &str, open_filter: bool) -> (r: String)
    ensures
        open_filter ==> r@ == kept_input(text@),
        !open_filter ==> r@ == text@,
{
    if !open_filter {
        return String::from_str(text);
    }
    let v = crate::text::chars_of(text);
    let mut r = String::new();
    let mut i: usize = 0;
    assert(v@.subrange(0, 0) =~= Seq::<char>::empty());
    while i < v.len()
        invariant
            i <= v@.len(),
            v@ == text@,
            r@ == kept_input(v@.subrange(0, i as int)),
        decreases v.len() - i,
    {
        assert(v@.subrange(0, i + 1).drop_last() =~= v@.subrange(0, i as int));
        let c = v[i];
        if ('a' <= c && c <= 'z') || ('A' <= c && c <= 'Z') || ('0' <= c && c <= '9') || c == '@' || c == '.'
            || c == '-' || c == '_' {
            crate::text::push_char(&mut r, c);
        }
        i = i + 1;
    }
    assert(v@.subrange(0, v@.len() as int) =~= v@);
    r
}

/// A filtered field holds only admitted characters.
pub proof fn law_filtered_input_is_clean(s: Seq<char>)
    ensures
        forall|i: int| 0 <= i < kept_input(s).len() ==> allowed_input(#[trigger] kept_input(s)[i]),
    decreases s.len(),
{
    if s.len() > 0 {
        law_filtered_input_is_clean(s.drop_last());
        let k = kept_input(s.drop_last());
        if allowed_input(s.last()) {
            assert forall|i: int| 0 <= i < k.push(s.last()).len() implies allowed_input(
                #[trigger] k.push(s.last())[i],
            ) by {
                if i < k.len() {
                    assert(k.push(s.last())[i] == k[i]);
                }
            }
        }
    }
}

/// Filtering a filtered text changes nothing.
pub proof fn law_filter_idempotent(s: Seq<char>)
    ensures
        kept_input(kept_input(s)) == kept_input(s),
    decreases s.len(),
{
    if s.len() > 0 {
        law_filter_idempotent(s.drop_last());
        let k = kept_input(s.drop_last());
        if allowed_input(s.last()) {
            assert(k.push(s.last()).drop_last() =~= k);
        }
    }
}

/// Whether `c` is an ASCII letter or digit (`char::is_ascii_alphanumeric`),
/// by its code point.
pub open spec fn ascii_alphanumeric_code(c: char) -> bool {
    let n = c as u32;
    (48 <= n <= 57) || (65 <= n <= 90) || (97 <= n <= 122)
}

/// Whether `c` is one of the four punctuation marks of addresses a field keeps.
pub open spec fn address_mark(c: char) -> bool {
    c == '@' || c == '.' || c == '-' || c == '_'
}

proof fn lemma_allowed_by_code(c: char)
    ensures
        allowed_input(c) <==> ascii_alphanumeric_code(c) || address_mark(c),
{
    assert('a' as u32 == 97 && 'z' as u32 == 122 && 'A' as u32 == 65 && 'Z' as u32 == 90);
    assert('0' as u32 == 48 && '9' as u32 == 57);
}

/// Filtering splits over concatenation: what is kept of two texts one after
/// the other is what is kept of each, one after the other.
pub proof fn law_filter_concat(a: Seq<char>, b: Seq<char>)
    ensures
        kept_input(a + b) == kept_input(a) + kept_input(b),
    decreases b.len(),
{
    if b.len() == 0 {
        assert(a + b =~= a);
        assert(kept_input(a) + kept_input(b) =~= kept_input(a));
    } else {
        law_filter_concat(a, b.drop_last());
        assert((a + b).drop_last() =~= a + b.drop_last());
        assert((a + b).last() == b.last());
        if allowed_input(b.last()) {
            assert(kept_input(a) + kept_input(b.drop_last()).push(b.last()) =~= (kept_input(a) + kept_input(
                b.drop_last(),
            )).push(b.last()));
        }
    }
}

/// A single character is kept exactly when it is an ASCII letter or digit
/// or one of `@ . - _`; anything else is dropped.
pub proof fn law_filter_single_char(c: char)
    ensures
        (ascii_alphanumeric_code(c) || address_mark(c)) ==> kept_input(seq![c]) == seq![c],
        !(ascii_alphanumeric_code(c) || address_mark(c)) ==> kept_input(seq![c]) == Seq::<char>::empty(),
{
    lemma_allowed_by_code(c);
    let s = seq![c];
    assert(s.drop_last() =~= Seq::<char>::empty());
    assert(kept_input(s.drop_last()) =~= Seq::<char>::empty());
    assert(s.last() == c);
    assert(Seq::<char>::empty().push(c) =~= s);
}

/// A text made only of ASCII letters, digits and `@ . - _` (a phone
/// number, an e-mail address) is kept whole.
pub proof fn law_filter_keeps_plain_text(s: Seq<char>)
    requires
        forall|i: int| 0 <= i < s.len() ==> ascii_alphanumeric_code(#[trigger] s[i]) || address_mark(s[i]),
    ensures
        kept_input(s) == s,
    decreases s.len(),
{
    if s.len() > 0 {
        let d = s.drop_last();
        assert forall|i: int| 0 <= i < d.len() implies ascii_alphanumeric_code(#[trigger] d[i]) || address_mark(
            d[i],
        ) by {
            assert(d[i] == s[i]);
        }
        law_filter_keeps_plain_text(d);
        lemma_allowed_by_code(s.last());
        assert(ascii_alphanumeric_code(s[s.len() - 1]) || address_mark(s[s.len() - 1]));
        assert(d.push(s.last()) =~= s);
    }
}

/// Each character of a filtered text is kept exactly when it is an ASCII
/// letter or digit or one of `@ . - _`: the result is the text with every
/// other character removed, in order.
pub proof fn law_filter_removes_exactly_others(s: Seq<char>)
    ensures
        kept_input(s) == s.filter(|c: char| ascii_alphanumeric_code(c) || address_mark(c)),
    decreases s.len(),
{
    reveal(Seq::filter);
    if s.len() > 0 {
        law_filter_removes_exactly_others(s.drop_last());
        lemma_allowed_by_code(s.last());
    }
}

} // verus!
