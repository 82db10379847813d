//! Small string operations with exact contracts.
use vstd::prelude::*;
use crate::text::{chars_of, push_char};

verus! {

/// `s` ends with `p`.
pub open spec fn has_suffix(s: Seq<char>, p: Seq<char>) -> bool {
    p.len() <= s.len() && s.subrange(s.len() - p.len(), s.len() as int) == p
}

/// Whether `s` ends with `p`.
pub fn ends_with_text(s: &str, p: &str) -> (r: bool)
    ensures
        r == has_suffix(s@, p@),
{
    let a = chars_of(s);
    let b = chars_of(p);
    if b.len() > a.len() {
        return false;
    }
    let off: usize = a.len() - b.len();
    let mut i: usize = 0;
    while i < b.len()
        invariant
            a@ == s@,
            b@ == p@,
            a@.len() <= usize::MAX,
            b@.len() <= a@.len(),
            off == a@.len() - b@.len(),
            0 <= i <= b@.len(),
            forall|j: int| 0 <= j < i ==> a@[off + j] == b@[j],
        decreases b@.len() - i,
    {
        if a[off + i] != b[i] {
            assert(a@.subrange(off as int, a@.len() as int)[i as int] == a@[off + i]);
            return false;
        }
        i = i + 1;
    }
    assert(a@.subrange(off as int, a@.len() as int) =~= b@);
    true
}

/// `t` holds `p` at position `i`.
pub open spec fn occurs_at(t: Seq<char>, p: Seq<char>, i: int) -> bool {
    0 <= i && i + p.len() <= t.len() && t.subrange(i, i + p.len()) == p
}

/// `t` holds `p` somewhere.
pub open spec fn contains_text(t: Seq<char>, p: Seq<char>) -> bool {
    exists|i: int| occurs_at(t, p, i)
}

fn matches_at(t: &Vec<char>, p: &Vec<char>, i: usize) -> (r: bool)
    requires
        i + p@.len() <= t@.len(),
    ensures
        r == occurs_at(t@, p@, i as int),
{
    let tl = t.len();
    let mut j: usize = 0;
    while j < p.len()
        invariant
            i + p@.len() <= t@.len(),
            t@.len() == tl,
            0 <= j <= p@.len(),
            forall|k: int| 0 <= k < j ==> t@[i + k] == p@[k],
        decreases p@.len() - j,
    {
        if t[i + j] != p[j] {
            assert(t@.subrange(i as int, i + p@.len())[j as int] == t@[i + j]);
            return false;
        }
        j = j + 1;
    }
    assert(t@.subrange(i as int, i + p@.len()) =~= p@);
    true
}

/// Whether the characters `t` hold `p` somewhere.
pub fn contains_chars(a: &Vec<char>, b: &Vec<char>) -> (r: bool)
    ensures
        r == contains_text(a@, b@),
{
    if b.len() > a.len() {
        return false;
    }
    let last: usize = a.len() - b.len();
    let mut i: usize = 0;
    loop
        invariant
            b@.len() <= a@.len(),
            last == a@.len() - b@.len(),
            0 <= i <= last,
            forall|k: int| 0 <= k < i ==> !occurs_at(a@, b@, k),
        ensures
            forall|k: int| 0 <= k <= last ==> !occurs_at(a@, b@, k),
        decreases last - i,
    {
        if matches_at(a, b, i) {
            return true;
        }
        if i == last {
            break;
        }
        i = i + 1;
    }
    assert forall|k: int| !occurs_at(a@, b@, k) by {
        if 0 <= k && k + b@.len() <= a@.len() {
            assert(k <= last);
        }
    }
    false
}

/// `s` without its last `n` characters.
pub fn drop_last_chars(s: &str, n: usize) -> (r: String)
    requires
        n <= s@.len(),
    ensures
        r@ == s@.subrange(0, s@.len() - n),
{
    let c = chars_of(s);
    let keep: usize = c.len() - n;
    let mut out = String::new();
    let mut i: usize = 0;
    while i < keep
        invariant
            c@ == s@,
            keep == c@.len() - n,
            0 <= i <= keep,
            out@ == c@.subrange(0, i as int),
        decreases keep - i,
    {
        push_char(&mut out, c[i]);
        assert(out@ =~= c@.subrange(0, i + 1));
        i = i + 1;
    }
    out
}

} // verus!
