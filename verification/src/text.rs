//! Whitespace trimming for the add-task validation.

use vstd::prelude::*;
use vstd::string::StrSliceExecFns;

verus! {

/// Whitespace for the add-task validation: the blank characters a user
/// plausibly types around a task title.
pub open spec fn spec_is_space(c: char) -> bool {
    c == ' ' || c == '\t' || c == '\n' || c == '\r'
}

/// `s` with its leading whitespace removed.
pub open spec fn spec_trim_front(s: Seq<char>) -> Seq<char>
    decreases s.len(),
{
    if s.len() > 0 && spec_is_space(s[0]) {
        spec_trim_front(s.drop_first())
    } else {
        s
    }
}

/// `s` with its trailing whitespace removed.
pub open spec fn spec_trim_back(s: Seq<char>) -> Seq<char>
    decreases s.len(),
{
    if s.len() > 0 && spec_is_space(s.last()) {
        spec_trim_back(s.drop_last())
    } else {
        s
    }
}

/// `s` with leading and trailing whitespace removed.
pub open spec fn spec_trim(s: Seq<char>) -> Seq<char> {
    spec_trim_back(spec_trim_front(s))
}

proof fn lemma_trim_front_at(s: Seq<char>, lo: int)
    requires
        0 <= lo <= s.len(),
        forall|i: int| 0 <= i < lo ==> spec_is_space(#[trigger] s[i]),
        lo < s.len() ==> !spec_is_space(s[lo]),
    ensures
        spec_trim_front(s) =~= s.subrange(lo, s.len() as int),
    decreases lo,
{
    if lo == 0 {
    } else {
        let t = s.drop_first();
        assert forall|i: int| 0 <= i < lo - 1 implies spec_is_space(#[trigger] t[i]) by {
            assert(t[i] == s[i + 1]);
        }
        lemma_trim_front_at(t, lo - 1);
        assert(t.subrange(lo - 1, t.len() as int) =~= s.subrange(lo, s.len() as int));
    }
}

proof fn lemma_trim_back_at(s: Seq<char>, hi: int)
    requires
        0 <= hi <= s.len(),
        forall|i: int| hi <= i < s.len() ==> spec_is_space(#[trigger] s[i]),
        hi > 0 ==> !spec_is_space(s[hi - 1]),
    ensures
        spec_trim_back(s) =~= s.subrange(0, hi),
    decreases s.len(),
{
    if hi == s.len() {
    } else {
        let t = s.drop_last();
        lemma_trim_back_at(t, hi);
    }
}

/// Relates the recursive trim to the scan bounds an implementation
/// finds: all of `[0, lo)` and `[hi, len)` blank, with non-blank
/// characters (if any) at `lo` and `hi - 1`.
proof fn lemma_trim_at(s: Seq<char>, lo: int, hi: int)
    requires
        0 <= lo <= hi <= s.len(),
        forall|i: int| 0 <= i < lo ==> spec_is_space(#[trigger] s[i]),
        forall|i: int| hi <= i < s.len() ==> spec_is_space(#[trigger] s[i]),
        lo < s.len() ==> !spec_is_space(s[lo]),
        hi > lo ==> !spec_is_space(s[hi - 1]),
    ensures
        spec_trim(s) =~= s.subrange(lo, hi),
{
    lemma_trim_front_at(s, lo);
    let t = s.subrange(lo, s.len() as int);
    assert forall|i: int| hi - lo <= i < t.len() implies spec_is_space(#[trigger] t[i]) by {
        assert(t[i] == s[lo + i]);
    }
    if hi > lo {
        assert(t[hi - lo - 1] == s[hi - 1]);
    }
    lemma_trim_back_at(t, hi - lo);
    assert(t.subrange(0, hi - lo) =~= s.subrange(lo, hi));
}

fn is_space_char(c: char) -> (r: bool)
    ensures
        r == spec_is_space(c),
{
    c == ' ' || c == '\t' || c == '\n' || c == '\r'
}

/// `s` with leading and trailing whitespace removed, as an owned string.
pub fn trimmed(s: &str) -> (r: String)
    ensures
        r@ == spec_trim(s@),
{
    let n = s.unicode_len();
    let mut lo: usize = 0;
    while lo < n && is_space_char(s.get_char(lo))
        invariant
            lo <= n,
            n == s@.len(),
            forall|i: int| 0 <= i < lo ==> spec_is_space(#[trigger] s@[i]),
        decreases n - lo,
    {
        lo = lo + 1;
    }
    let mut hi: usize = n;
    while hi > lo && is_space_char(s.get_char(hi - 1))
        invariant
            lo <= hi <= n,
            n == s@.len(),
            forall|i: int| 0 <= i < lo ==> spec_is_space(#[trigger] s@[i]),
            forall|i: int| hi <= i < n ==> spec_is_space(#[trigger] s@[i]),
            lo < n ==> !spec_is_space(s@[lo as int]),
        decreases hi,
    {
        hi = hi - 1;
    }
    let r = s.substring_char(lo, hi).to_owned();
    proof {
        lemma_trim_at(s@, lo as int, hi as int);
    }
    r
}

} // verus!
