use vstd::prelude::*;
use crate::term::{Term, TermV, TermBound, TermBoundV, TermRangeV};

verus! {

/// Returns true when every byte of `s` is the maximum byte value. The empty
/// byte string counts as well.
pub open spec fn all_bytes_max(s: Seq<u8>) -> bool {
    forall|i: int| 0 <= i < s.len() ==> s[i] == 0xffu8
}

/// The position of the last byte of `p` that is not the maximum byte value,
/// or -1 when there is none.
pub open spec fn last_non_max(p: Seq<u8>) -> int
    decreases p.len(),
{
    if p.len() == 0 {
        -1
    } else if p[p.len() - 1] != 0xffu8 {
        p.len() - 1
    } else {
        last_non_max(p.drop_last())
    }
}

/// The least byte string above everything that starts with `p`: `p` cut
/// after its last non-maximum byte, with that byte incremented.
pub open spec fn prefix_upper(p: Seq<u8>) -> Seq<u8>
    recommends
        !all_bytes_max(p),
{
    p.subrange(0, last_non_max(p)) + seq![(p[last_non_max(p)] + 1) as u8]
}

/// Strict lexicographic order on byte strings, the order the term
/// dictionary stores encoded terms in.
pub open spec fn lex_lt(a: Seq<u8>, b: Seq<u8>) -> bool
    decreases a.len(),
{
    if b.len() == 0 {
        false
    } else if a.len() == 0 {
        true
    } else if a[0] < b[0] {
        true
    } else if a[0] > b[0] {
        false
    } else {
        lex_lt(a.drop_first(), b.drop_first())
    }
}

/// Lexicographic order on byte strings, allowing equality.
pub open spec fn lex_le(a: Seq<u8>, b: Seq<u8>) -> bool {
    lex_lt(a, b) || a == b
}

/// Returns true when `p` is a literal prefix of `s`.
pub open spec fn is_prefix_of(p: Seq<u8>, s: Seq<u8>) -> bool {
    p.len() <= s.len() && s.subrange(0, p.len() as int) == p
}

/// When `p` has a byte below the maximum, `last_non_max` points at a
/// non-maximum byte and everything after it is maximal.
pub proof fn lemma_last_non_max(p: Seq<u8>)
    requires
        !all_bytes_max(p),
    ensures
        0 <= last_non_max(p) < p.len(),
        p[last_non_max(p)] != 0xffu8,
        forall|j: int| last_non_max(p) < j < p.len() ==> p[j] == 0xffu8,
    decreases p.len(),
{
    if p.len() == 0 {
        assert(all_bytes_max(p));
    } else if p[p.len() - 1] != 0xffu8 {
    } else {
        let i = choose|i: int| 0 <= i < p.len() && p[i] != 0xffu8;
        assert(p.drop_last()[i] == p[i]);
        assert(!all_bytes_max(p.drop_last()));
        lemma_last_non_max(p.drop_last());
        assert(p.drop_last()[last_non_max(p.drop_last())] == p[last_non_max(p.drop_last())]);
        assert(forall|j: int|
            last_non_max(p) < j < p.len() - 1 ==> p.drop_last()[j] == p[j] && p[j] == 0xffu8);
    }
}

/// When the byte at `i` is below the maximum and everything after it is
/// maximal, `i` is the last non-maximum position.
pub proof fn lemma_last_non_max_at(p: Seq<u8>, i: int)
    requires
        0 <= i < p.len(),
        p[i] != 0xffu8,
        forall|j: int| i < j < p.len() ==> p[j] == 0xffu8,
    ensures
        last_non_max(p) == i,
    decreases p.len(),
{
    if i == p.len() - 1 {
    } else {
        assert(p[p.len() - 1] == 0xffu8);
        assert(p.drop_last()[i] == p[i]);
        assert(forall|j: int| i < j < p.len() - 1 ==> p.drop_last()[j] == p[j]);
        lemma_last_non_max_at(p.drop_last(), i);
    }
}

/// A byte string is lexicographically at least each of its prefixes.
pub proof fn lemma_prefix_lex_le(p: Seq<u8>, s: Seq<u8>)
    requires
        is_prefix_of(p, s),
    ensures
        lex_le(p, s),
    decreases p.len(),
{
    if p.len() == 0 {
        if s.len() == 0 {
            assert(p =~= s);
        }
    } else {
        assert(s.subrange(0, p.len() as int)[0] == s[0]);
        assert(p[0] == s[0]);
        assert(s.drop_first().subrange(0, p.len() - 1) =~= p.drop_first()) by {
            assert(forall|j: int|
                0 <= j < p.len() - 1 ==> #[trigger] s.drop_first().subrange(0, p.len() - 1)[j]
                    == s[j + 1]);
            assert(forall|j: int|
                0 <= j < p.len() - 1 ==> #[trigger] p.drop_first()[j] == s.subrange(
                    0,
                    p.len() as int,
                )[j + 1]);
        }
        lemma_prefix_lex_le(p.drop_first(), s.drop_first());
        if p.drop_first() == s.drop_first() {
            if p.len() == s.len() {
                assert(p =~= s);
            } else {
                assert(p.drop_first().len() == s.drop_first().len());
            }
        }
    }
}

/// Two byte strings that agree up to position `k` and differ there in
/// `a`'s favour are lexicographically ordered.
pub proof fn lemma_lex_lt_from_diff(a: Seq<u8>, b: Seq<u8>, k: int)
    requires
        0 <= k < a.len(),
        k < b.len(),
        forall|j: int| 0 <= j < k ==> a[j] == b[j],
        a[k] < b[k],
    ensures
        lex_lt(a, b),
    decreases k,
{
    if k == 0 {
    } else {
        assert(a[0] == b[0]);
        assert(forall|j: int| 0 <= j < k - 1 ==> a.drop_first()[j] == a[j + 1]);
        assert(forall|j: int| 0 <= j < k - 1 ==> b.drop_first()[j] == b[j + 1]);
        assert(a.drop_first()[k - 1] == a[k]);
        assert(b.drop_first()[k - 1] == b[k]);
        lemma_lex_lt_from_diff(a.drop_first(), b.drop_first(), k - 1);
    }
}

/// Every byte string that starts with prefix `p` (where `p` has a byte
/// below the maximum) lies at or above `p` and strictly below
/// `prefix_upper(p)` in the lexicographic byte order: the half-open range
/// `[p, prefix_upper(p))` holds exactly the byte strings that may carry a
/// term matching the prefix.
pub proof fn lemma_prefix_range_contains(p: Seq<u8>, s: Seq<u8>)
    requires
        is_prefix_of(p, s),
        !all_bytes_max(p),
    ensures
        lex_le(p, s),
        lex_lt(s, prefix_upper(p)),
{
    lemma_prefix_lex_le(p, s);
    lemma_last_non_max(p);
    let k = last_non_max(p);
    let q = prefix_upper(p);
    assert(q.len() == k + 1);
    assert(forall|j: int| 0 <= j < k ==> q[j] == p[j]);
    assert(forall|j: int| 0 <= j < p.len() ==> s.subrange(0, p.len() as int)[j] == s[j]);
    assert(forall|j: int| 0 <= j < p.len() ==> s[j] == p[j]);
    assert(q[k] == p[k] + 1);
    assert(s[k] < q[k]);
    lemma_lex_lt_from_diff(s, q, k);
}

/// The term range a prefix term expands to: the prefix itself included as
/// the lower bound, and `prefix_upper` of its bytes excluded as the upper
/// bound — or no upper bound when every byte of the prefix is maximal.
pub open spec fn prefix_range_v(t: TermV, limit: Option<u64>) -> TermRangeV {
    TermRangeV {
        start: TermBoundV::Included(t),
        end: if all_bytes_max(t.bytes) {
            TermBoundV::Unbounded
        } else {
            TermBoundV::Excluded(TermV { field: t.field, bytes: prefix_upper(t.bytes) })
        },
        limit,
    }
}

/// Converts a prefix term into the bounds of the half-open byte range that
/// holds exactly the terms starting with it: scan the encoded value from
/// the end, increment the last byte that is not at the maximum and drop
/// everything after it; when every byte is maximal the range has no upper
/// bound.
pub fn prefix_term_to_range(prefix: Term) -> (r: (TermBound, TermBound))
    ensures
        r.0@ == TermBoundV::Included(prefix@),
        all_bytes_max(prefix.bytes@) ==> r.1@ == TermBoundV::Unbounded,
        !all_bytes_max(prefix.bytes@) ==> r.1@ == TermBoundV::Excluded(
            TermV { field: prefix.field, bytes: prefix_upper(prefix.bytes@) },
        ),
{
    let field = prefix.field;
    let ghost p: Seq<u8> = prefix.bytes@;
    let mut end_bound: Vec<u8> = Vec::new();
    end_bound.extend_from_slice(prefix.bytes.as_slice());
    proof {
        assert(end_bound@ =~= p.subrange(0, end_bound@.len() as int));
    }
    while end_bound.len() > 0
        invariant
            p == prefix.bytes@,
            field == prefix.field,
            end_bound@.len() <= p.len(),
            end_bound@ == p.subrange(0, end_bound@.len() as int),
            forall|j: int| end_bound@.len() <= j < p.len() ==> p[j] == 0xffu8,
        decreases end_bound@.len(),
    {
        let n = end_bound.len();
        let last_byte = end_bound[n - 1];
        proof {
            assert(end_bound@[n - 1] == p[n - 1]);
        }
        if last_byte != 0xff {
            end_bound[n - 1] = last_byte + 1;
            proof {
                lemma_last_non_max_at(p, n - 1);
                assert(end_bound@ =~= prefix_upper(p));
                assert(!all_bytes_max(p));
            }
            return (
                TermBound::Included(prefix),
                TermBound::Excluded(Term { field, bytes: end_bound }),
            );
        }
        end_bound.pop();
        proof {
            assert(end_bound@ =~= p.subrange(0, end_bound@.len() as int));
        }
    }
    proof {
        assert(all_bytes_max(p));
    }
    (TermBound::Included(prefix), TermBound::Unbounded)
}

} // verus!
