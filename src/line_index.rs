//! The mathematical model of a line-offset index, and the scan that extends one.

use vstd::prelude::*;

verus! {

/// The byte that ends a line.
pub const NEWLINE: u8 = 10;

/// The offsets one past each newline among the bytes `b[s..e]`, in order.
pub open spec fn newline_ends(b: Seq<u8>, s: int, e: int) -> Seq<usize>
    decreases e - s,
{
    if e <= s {
        seq![]
    } else if b[e - 1] == NEWLINE {
        newline_ends(b, s, e - 1).push(e as usize)
    } else {
        newline_ends(b, s, e - 1)
    }
}

/// The start offset of every line that begins within the first `n` bytes of `b`:
/// offset 0, then one past each newline found there.
pub open spec fn line_starts(b: Seq<u8>, n: int) -> Seq<usize> {
    seq![0usize] + newline_ends(b, 0, n)
}

/// Number of newlines in `b`, which is the number of complete lines.
pub open spec fn newline_count(b: Seq<u8>) -> nat {
    newline_ends(b, 0, b.len() as int).len()
}

/// A sequence of offsets that strictly increases.
pub open spec fn strictly_increasing(o: Seq<usize>) -> bool {
    forall|i: int, j: int| 0 <= i < j < o.len() ==> o[i] < o[j]
}

/// The offsets found in `b[s..e]` lie in `(s, e]`, in strictly increasing order.
pub proof fn lemma_newline_ends_bounds(b: Seq<u8>, s: int, e: int)
    requires
        0 <= s,
        e <= usize::MAX,
    ensures
        strictly_increasing(newline_ends(b, s, e)),
        forall|k: int|
            0 <= k < newline_ends(b, s, e).len() ==> s < #[trigger] newline_ends(b, s, e)[k] as int <= e,
        e <= s ==> newline_ends(b, s, e).len() == 0,
        newline_ends(b, s, e).len() <= if e <= s { 0 } else { e - s },
    decreases e - s,
{
    if e > s {
        lemma_newline_ends_bounds(b, s, e - 1);
        let p = newline_ends(b, s, e - 1);
        if b[e - 1] == NEWLINE {
            let q = p.push(e as usize);
            assert forall|k: int| 0 <= k < q.len() implies s < #[trigger] q[k] as int <= e by {
                if k < p.len() {
                    assert(q[k] == p[k]);
                }
            }
            assert forall|i: int, j: int| 0 <= i < j < q.len() implies q[i] < q[j] by {
                assert(q[i] == p[i]);
                if j < p.len() {
                    assert(q[j] == p[j]);
                }
            }
        }
    }
}

/// Scanning `b[s..m]` and then `b[m..e]` finds what scanning `b[s..e]` finds.
pub proof fn lemma_newline_ends_split(b: Seq<u8>, s: int, m: int, e: int)
    requires
        s <= m <= e,
    ensures
        newline_ends(b, s, e) == newline_ends(b, s, m) + newline_ends(b, m, e),
    decreases e - m,
{
    if e > m {
        lemma_newline_ends_split(b, s, m, e - 1);
        assert(newline_ends(b, s, e) =~= newline_ends(b, s, m) + newline_ends(b, m, e));
    } else {
        assert(newline_ends(b, s, e) =~= newline_ends(b, s, m) + newline_ends(b, m, e));
    }
}

/// The scan of `b[s..e]` reads no byte outside that range.
pub proof fn lemma_newline_ends_local(b: Seq<u8>, c: Seq<u8>, s: int, e: int)
    requires
        0 <= s,
        e <= b.len(),
        e <= c.len(),
        b.subrange(s, e) == c.subrange(s, e),
    ensures
        newline_ends(b, s, e) == newline_ends(c, s, e),
    decreases e - s,
{
    if e > s {
        assert(b[e - 1] == b.subrange(s, e)[e - 1 - s]);
        assert(c[e - 1] == c.subrange(s, e)[e - 1 - s]);
        assert(b.subrange(s, e - 1) =~= b.subrange(s, e).subrange(0, e - 1 - s));
        assert(c.subrange(s, e - 1) =~= c.subrange(s, e).subrange(0, e - 1 - s));
        lemma_newline_ends_local(b, c, s, e - 1);
    }
}

/// Collects the offsets one past each newline in `bytes[start..end]`.
pub fn scan_newlines(bytes: &[u8], start: usize, end: usize) -> (r: Vec<usize>)
    requires
        start <= end <= bytes@.len(),
    ensures
        r@ == newline_ends(bytes@, start as int, end as int),
{
    let mut found: Vec<usize> = Vec::new();
    let mut pos: usize = start;
    while pos < end
        invariant
            start <= pos <= end <= bytes@.len(),
            found@ == newline_ends(bytes@, start as int, pos as int),
        decreases end - pos,
    {
        if bytes[pos] == NEWLINE {
            found.push(pos + 1);
        }
        pos = pos + 1;
    }
    found
}

} // verus!
