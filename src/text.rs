//! Character classes as std defines them, and small facts about text.
use vstd::prelude::*;
use vstd::std_specs::iter::IteratorSpec;

verus! {

/// Unicode's White_Space property.
pub open spec fn is_white_space(c: char) -> bool {
    ('\u{9}' <= c && c <= '\u{d}') || c == ' ' || c == '\u{85}' || c == '\u{a0}' || c
        == '\u{1680}' || ('\u{2000}' <= c && c <= '\u{200a}') || c == '\u{2028}' || c
        == '\u{2029}' || c == '\u{202f}' || c == '\u{205f}' || c == '\u{3000}'
}

/// Unicode's general category Cc, the control characters.
pub open spec fn is_control_char(c: char) -> bool {
    c <= '\u{1f}' || ('\u{7f}' <= c && c <= '\u{9f}')
}

/// Whether `c` has the White_Space property, as `char::is_whitespace` says.
pub fn is_whitespace(c: char) -> (r: bool)
    ensures
        r == is_white_space(c),
{
    ('\u{9}' <= c && c <= '\u{d}') || c == ' ' || c == '\u{85}' || c == '\u{a0}' || c
        == '\u{1680}' || ('\u{2000}' <= c && c <= '\u{200a}') || c == '\u{2028}' || c
        == '\u{2029}' || c == '\u{202f}' || c == '\u{205f}' || c == '\u{3000}'
}

/// Whether `c` is a control character, as `char::is_control` says.
pub fn is_control(c: char) -> (r: bool)
    ensures
        r == is_control_char(c),
{
    c <= '\u{1f}' || ('\u{7f}' <= c && c <= '\u{9f}')
}

/// `s` without the White_Space characters at its end.
pub open spec fn trim_white_end(s: Seq<char>) -> Seq<char>
    decreases s.len(),
{
    if s.len() > 0 && is_white_space(s.last()) {
        trim_white_end(s.drop_last())
    } else {
        s
    }
}

/// `s` without its trailing characters that have the White_Space property,
/// as `str::trim_end` gives it.
pub fn trim_end(s: &str) -> (r: &str)
    ensures
        r@ == trim_white_end(s@),
{
    let n = s.unicode_len();
    let mut chars: Vec<char> = Vec::new();
    let mut it = s.chars();
    proof {
        broadcast use vstd::string::axiom_spec_iter;
    }
    while chars.len() < n
        invariant
            chars@.len() <= n,
            n == s@.len(),
            it.remaining() == s@.skip(chars@.len() as int),
            it.obeys_prophetic_iter_laws(),
            chars@ == s@.take(chars@.len() as int),
        decreases n - chars@.len(),
    {
        let ghost before = it;
        let next = it.next();
        proof {
            vstd::string::next_postcondition(&before, &it, next);
        }
        let c = next.unwrap();
        chars.push(c);
        assert(chars@ =~= s@.take(chars@.len() as int));
        assert(it.remaining() =~= s@.skip(chars@.len() as int));
    }
    assert(chars@ =~= s@);
    let mut k: usize = n;
    assert(s@.take(n as int) =~= s@);
    while k > 0 && is_whitespace(chars[k - 1])
        invariant
            k <= n,
            n == s@.len(),
            chars@ == s@,
            trim_white_end(s@.take(k as int)) == trim_white_end(s@),
        decreases k,
    {
        assert(s@.take(k as int).drop_last() =~= s@.take(k - 1));
        assert(s@.take(k as int).last() == chars@[k - 1]);
        k = k - 1;
    }
    assert(k > 0 ==> s@.take(k as int).last() == s@[k - 1]);
    assert(trim_white_end(s@.take(k as int)) == s@.take(k as int));
    s.substring_char(0, k)
}


/// `x` occurs in `s` followed by `c` exactly where it occurs in `s` or is `c`.
pub proof fn lemma_contains_push(s: Seq<char>, c: char, x: char)
    ensures
        s.push(c).contains(x) == (s.contains(x) || c == x),
{
    if s.contains(x) {
        let i = choose|i: int| 0 <= i < s.len() && s[i] == x;
        assert(s.push(c)[i] == x);
    }
    if c == x {
        assert(s.push(c)[s.len() as int] == x);
    }
    if s.push(c).contains(x) {
        let i = choose|i: int| 0 <= i < s.len() + 1 && s.push(c)[i] == x;
        if i < s.len() {
            assert(s[i] == x);
        }
    }
}

/// Relies on `String::push`: appends `c` at the end.
#[verifier::external_body]
pub(crate) fn push_char(s: &mut String, c: char)
    ensures
        final(s)@ == old(s)@.push(c),
{
    s.push(c)
}

} // verus!
