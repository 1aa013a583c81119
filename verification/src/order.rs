//! The order of identifiers: that of their bytes, read from the first to
//! the last, as in a dictionary.
use vstd::prelude::*;

verus! {

/// Whether `a` and `b` agree on their first `k` bytes and part ways at `k`
/// with `a` the smaller: either `a` has the smaller byte there, or `a` ends
/// there and `b` goes on.
pub open spec fn less_at(a: Seq<u8>, b: Seq<u8>, k: int) -> bool {
    &&& 0 <= k <= a.len()
    &&& k < b.len()
    &&& forall|j: int| 0 <= j < k ==> a[j] == b[j]
    &&& k < a.len() ==> a[k] < b[k]
}

/// Whether `a` comes before `b` in lexicographic order.
pub open spec fn lex_less(a: Seq<u8>, b: Seq<u8>) -> bool {
    exists|k: int| less_at(a, b, k)
}

/// Two byte strings part ways at one index at most, so the order has one
/// answer: where `a` is the smaller at `k`, `b` is not smaller anywhere.
pub proof fn lemma_less_at_decides(a: Seq<u8>, b: Seq<u8>, k: int)
    requires
        less_at(a, b, k),
    ensures
        lex_less(a, b),
        !lex_less(b, a),
        a != b,
{
    assert forall|m: int| !less_at(b, a, m) by {
        if less_at(b, a, m) {
            if m < k {
                assert(a[m] == b[m]);
            } else if k < m {
                assert(b[k] == a[k]);
            }
        }
    }
}

/// Byte strings of one length that agree everywhere are equal, and neither
/// comes before the other.
pub proof fn lemma_agreeing_are_equal(a: Seq<u8>, b: Seq<u8>)
    requires
        a.len() == b.len(),
        forall|j: int| 0 <= j < a.len() ==> a[j] == b[j],
    ensures
        a == b,
        !lex_less(a, b),
        !lex_less(b, a),
{
    assert(a =~= b);
    assert forall|m: int| !less_at(a, b, m) by {}
}

/// No byte string comes before itself.
pub proof fn lemma_lex_irreflexive(a: Seq<u8>)
    ensures
        !lex_less(a, a),
{
    assert forall|m: int| !less_at(a, a, m) by {}
}

/// Of two byte strings of one length, exactly one holds: the first comes
/// before the second, they are equal, or the second comes before the first.
pub proof fn lemma_lex_trichotomy(a: Seq<u8>, b: Seq<u8>)
    requires
        a.len() == b.len(),
    ensures
        lex_less(a, b) || a == b || lex_less(b, a),
        !(lex_less(a, b) && a == b),
        !(lex_less(b, a) && a == b),
        !(lex_less(a, b) && lex_less(b, a)),
{
    lemma_lex_irreflexive(a);
    if lex_less(a, b) {
        let k = choose|k: int| less_at(a, b, k);
        lemma_less_at_decides(a, b, k);
    }
    if lex_less(b, a) {
        let k = choose|k: int| less_at(b, a, k);
        lemma_less_at_decides(b, a, k);
    }
    if a != b {
        let d = lemma_first_difference(a, b, 0);
        if a[d] < b[d] {
            assert(less_at(a, b, d));
        } else {
            assert(less_at(b, a, d));
        }
    }
}

/// Different byte strings of one length that agree before `from` differ at
/// some first index at or after it.
pub proof fn lemma_first_difference(a: Seq<u8>, b: Seq<u8>, from: int) -> (d: int)
    requires
        a.len() == b.len(),
        a != b,
        0 <= from <= a.len(),
        forall|j: int| 0 <= j < from ==> a[j] == b[j],
    ensures
        from <= d < a.len(),
        a[d] != b[d],
        forall|j: int| 0 <= j < d ==> a[j] == b[j],
    decreases a.len() - from,
{
    if from == a.len() {
        assert(a =~= b);
        from
    } else if a[from] != b[from] {
        from
    } else {
        lemma_first_difference(a, b, from + 1)
    }
}

/// The order is transitive.
pub proof fn lemma_lex_transitive(a: Seq<u8>, b: Seq<u8>, c: Seq<u8>)
    requires
        lex_less(a, b),
        lex_less(b, c),
    ensures
        lex_less(a, c),
{
    let k = choose|k: int| less_at(a, b, k);
    let m = choose|m: int| less_at(b, c, m);
    if k <= m {
        assert(less_at(a, c, k));
    } else {
        assert(less_at(a, c, m));
    }
}

/// Where byte strings agree before `d` and the first has the smaller byte
/// at `d`, the first comes before the second.
pub proof fn lemma_differ_at(a: Seq<u8>, b: Seq<u8>, d: usize)
    requires
        d < a.len(),
        d < b.len(),
        forall|j: int| 0 <= j < d ==> a[j] == b[j],
        a[d as int] < b[d as int],
    ensures
        lex_less(a, b),
        !lex_less(b, a),
{
    assert(less_at(a, b, d as int));
    lemma_less_at_decides(a, b, d as int);
}

/// The first index at which two identifiers' bytes differ, or 16 where they
/// do not.
pub fn first_difference(a: &[u8; 16], b: &[u8; 16]) -> (d: usize)
    ensures
        d <= 16,
        forall|j: int| 0 <= j < d ==> a@[j] == b@[j],
        d < 16 ==> a@[d as int] != b@[d as int],
{
    let mut i: usize = 0;
    while i < 16
        invariant
            i <= 16,
            forall|j: int| 0 <= j < i ==> a@[j] == b@[j],
        decreases 16 - i,
    {
        if a[i] != b[i] {
            return i;
        }
        i += 1;
    }
    i
}

} // verus!
