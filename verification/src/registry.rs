//! Executable maintenance of the candidacy registry: insert-or-replace and
//! removal of records, with their effect on lookups pinned down.

use vstd::prelude::*;

use crate::council::{
    candidate_idx, candidates_wf, has_candidate, lemma_candidate_idx, spec_candidate, Candidate,
    CandidateRecord,
};

verus! {

/// Inserts member `membership_id`'s candidacy `c`, replacing a previous
/// record of the member if one exists.
pub fn upsert_candidate(cands: &mut Vec<CandidateRecord>, membership_id: u64, c: Candidate)
    requires
        candidates_wf(old(cands)@),
    ensures
        candidates_wf(final(cands)@),
        has_candidate(final(cands)@, membership_id),
        spec_candidate(final(cands)@, membership_id) == c,
        forall|m: u64|
            m != membership_id ==> #[trigger] has_candidate(final(cands)@, m) == has_candidate(
                old(cands)@,
                m,
            ),
        forall|m: u64|
            m != membership_id && has_candidate(old(cands)@, m)
                ==> #[trigger] spec_candidate(final(cands)@, m) == spec_candidate(old(cands)@, m),
        has_candidate(old(cands)@, membership_id) ==> final(cands)@ == old(cands)@.update(
            candidate_idx(old(cands)@, membership_id),
            CandidateRecord { membership_id, candidate: c },
        ),
        !has_candidate(old(cands)@, membership_id) ==> final(cands)@ == old(cands)@.push(
            CandidateRecord { membership_id, candidate: c },
        ),
{
    let ghost s0 = cands@;
    let n = cands.len();
    let mut i: usize = 0;
    while i < n
        invariant
            i <= n,
            n == cands@.len(),
            cands@ == s0,
            old(cands)@ == s0,
            candidates_wf(s0),
            forall|j: int| 0 <= j < i ==> s0[j].membership_id != membership_id,
        decreases n - i,
    {
        if cands[i].membership_id == membership_id {
            proof {
                lemma_candidate_idx(s0, membership_id, i as int);
            }
            let rec = &mut cands[i];
            rec.candidate = c;
            proof {
                let s1 = cands@;
                assert(s1 =~= s0.update(
                    i as int,
                    CandidateRecord { membership_id, candidate: c },
                ));
                assert(candidates_wf(s1)) by {
                    assert(forall|j: int|
                        0 <= j < s1.len() ==> s1[j].membership_id == #[trigger] s0[j].membership_id);
                }
                lemma_candidate_idx(s1, membership_id, i as int);
                assert forall|m: u64| m != membership_id implies #[trigger] has_candidate(s1, m)
                    == has_candidate(s0, m) by {
                    crate::council::lemma_same_candidate_ids(s0, s1, m);
                }
                assert forall|m: u64| m != membership_id && has_candidate(s0, m) implies
                    #[trigger] spec_candidate(s1, m) == spec_candidate(s0, m) by {
                    crate::council::lemma_same_candidate_ids(s0, s1, m);
                    let k = candidate_idx(s0, m);
                    assert(0 <= k < s0.len() && s0[k].membership_id == m);
                    assert(k != i);
                }
            }
            return;
        }
        i = i + 1;
    }
    assert(!has_candidate(s0, membership_id)) by {
        if has_candidate(s0, membership_id) {
            let k = candidate_idx(s0, membership_id);
            assert(0 <= k < s0.len() && s0[k].membership_id == membership_id);
        }
    }
    cands.push(CandidateRecord { membership_id, candidate: c });
    proof {
        let s1 = cands@;
        let m0 = s0.len() as int;
        assert(s1[m0].membership_id == membership_id && s1[m0].candidate == c);
        assert(forall|j: int| 0 <= j < m0 ==> s1[j] == s0[j]);
        assert(candidates_wf(s1)) by {
            assert forall|x: int, y: int| 0 <= x < y < s1.len() implies s1[x].membership_id
                != s1[y].membership_id by {
                if y < m0 {
                } else {
                    assert(s0[x].membership_id != membership_id);
                }
            }
        }
        lemma_candidate_idx(s1, membership_id, m0);
        assert forall|m: u64| m != membership_id implies #[trigger] has_candidate(s1, m)
            == has_candidate(s0, m) by {
            if has_candidate(s0, m) {
                let k = candidate_idx(s0, m);
                assert(0 <= k < m0 && s0[k].membership_id == m);
                lemma_candidate_idx(s1, m, k);
            } else {
                if has_candidate(s1, m) {
                    let k = candidate_idx(s1, m);
                    assert(0 <= k < s1.len() && s1[k].membership_id == m);
                    assert(k != m0);
                    assert(s0[k].membership_id == m);
                }
            }
        }
        assert forall|m: u64| m != membership_id && has_candidate(s0, m) implies
            #[trigger] spec_candidate(s1, m) == spec_candidate(s0, m) by {
            let k = candidate_idx(s0, m);
            assert(0 <= k < m0 && s0[k].membership_id == m);
            lemma_candidate_idx(s1, m, k);
            lemma_candidate_idx(s0, m, k);
        }
    }
}

/// Removes the record at position `i`.
pub fn remove_candidate_at(cands: &mut Vec<CandidateRecord>, i: usize)
    requires
        candidates_wf(old(cands)@),
        i < old(cands)@.len(),
    ensures
        candidates_wf(final(cands)@),
        final(cands)@ == old(cands)@.remove(i as int),
        !has_candidate(final(cands)@, old(cands)@[i as int].membership_id),
        forall|m: u64|
            m != old(cands)@[i as int].membership_id ==> #[trigger] has_candidate(
                final(cands)@,
                m,
            ) == has_candidate(old(cands)@, m),
        forall|m: u64|
            m != old(cands)@[i as int].membership_id && has_candidate(old(cands)@, m)
                ==> #[trigger] spec_candidate(final(cands)@, m) == spec_candidate(old(cands)@, m),
{
    let ghost s0 = cands@;
    let ghost mid = s0[i as int].membership_id;
    cands.remove(i);
    proof {
        let s1 = cands@;
        s0.remove_ensures(i as int);
        assert(s1 == s0.remove(i as int));
        assert(candidates_wf(s1)) by {
            assert forall|x: int, y: int| 0 <= x < y < s1.len() implies s1[x].membership_id
                != s1[y].membership_id by {
                let x0: int = if x < i {
                    x
                } else {
                    x + 1
                };
                let y0: int = if y < i {
                    y
                } else {
                    y + 1
                };
                assert(s0[x0].membership_id != s0[y0].membership_id);
            }
        }
        assert(!has_candidate(s1, mid)) by {
            if has_candidate(s1, mid) {
                let k = candidate_idx(s1, mid);
                assert(0 <= k < s1.len() && s1[k].membership_id == mid);
                let k0: int = if k < i {
                    k
                } else {
                    k + 1
                };
                assert(s0[k0].membership_id == mid);
                lemma_candidate_idx(s0, mid, k0);
                lemma_candidate_idx(s0, mid, i as int);
            }
        }
        assert forall|m: u64| m != mid implies #[trigger] has_candidate(s1, m) == has_candidate(
            s0,
            m,
        ) by {
            if has_candidate(s0, m) {
                let k = candidate_idx(s0, m);
                assert(0 <= k < s0.len() && s0[k].membership_id == m);
                assert(k != i);
                let k1: int = if k < i {
                    k
                } else {
                    k - 1
                };
                assert(s1[k1].membership_id == m);
                assert(has_candidate(s1, m));
            } else {
                if has_candidate(s1, m) {
                    let k = candidate_idx(s1, m);
                    assert(0 <= k < s1.len() && s1[k].membership_id == m);
                    let k0: int = if k < i {
                        k
                    } else {
                        k + 1
                    };
                    assert(s0[k0].membership_id == m);
                }
            }
        }
        assert forall|m: u64| m != mid && has_candidate(s0, m) implies #[trigger] spec_candidate(
            s1,
            m,
        ) == spec_candidate(s0, m) by {
            let k = candidate_idx(s0, m);
            assert(0 <= k < s0.len() && s0[k].membership_id == m);
            assert(k != i);
            let k1: int = if k < i {
                k
            } else {
                k - 1
            };
            assert(s1[k1].membership_id == m);
            lemma_candidate_idx(s1, m, k1);
            lemma_candidate_idx(s0, m, k);
        }
    }
}

} // verus!
