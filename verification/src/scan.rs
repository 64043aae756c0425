use vstd::prelude::*;

verus! {

pub const NUL: u8 = 0;
pub const SPACE: u8 = 32;

/// The least index at or after `from` at which `s` holds `b`, or the length
/// of `s` where it holds none there.
pub open spec fn find_from(s: Seq<u8>, b: u8, from: int) -> int
    decreases s.len() - from,
{
    if from >= s.len() {
        s.len() as int
    } else if s[from] == b {
        from
    } else {
        find_from(s, b, from + 1)
    }
}

/// The index of the first `b` in `s`, or the length of `s` where there is none.
pub open spec fn find(s: Seq<u8>, b: u8) -> int {
    find_from(s, b, 0)
}

/// What `find_from` returns lies between `from` and the end, nothing before
/// it is `b`, and where it is an index the byte there is `b`.
pub proof fn lemma_find_from_bounds(s: Seq<u8>, b: u8, from: int)
    requires
        0 <= from <= s.len(),
    ensures
        from <= find_from(s, b, from) <= s.len(),
        forall|j: int| from <= j < find_from(s, b, from) ==> s[j] != b,
        find_from(s, b, from) < s.len() ==> s[find_from(s, b, from)] == b,
    decreases s.len() - from,
{
    if from < s.len() && s[from] != b {
        lemma_find_from_bounds(s, b, from + 1);
    }
}

/// An index that holds the first `b` at or after `from` is what `find_from`
/// returns, and so is the length where no `b` follows `from`.
pub proof fn lemma_find_from_unique(s: Seq<u8>, b: u8, from: int, p: int)
    requires
        0 <= from <= p <= s.len(),
        forall|j: int| from <= j < p ==> s[j] != b,
        p < s.len() ==> s[p] == b,
    ensures
        find_from(s, b, from) == p,
    decreases p - from,
{
    if from < p {
        lemma_find_from_unique(s, b, from + 1, p);
    }
}

/// Scans `s` from `from` for the byte `b`.
pub fn find_byte(s: &[u8], b: u8, from: usize) -> (res: usize)
    requires
        from <= s@.len(),
    ensures
        res as int == find_from(s@, b, from as int),
        from <= res <= s@.len(),
{
    let mut i: usize = from;
    while i < s.len() && s[i] != b
        invariant
            from <= i <= s@.len(),
            find_from(s@, b, from as int) == find_from(s@, b, i as int),
        decreases s@.len() - i,
    {
        i = i + 1;
    }
    i
}

} // verus!
