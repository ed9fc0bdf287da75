//! A set of commit identifiers, kept as a list in rising order.

use vstd::prelude::*;
use crate::text::{lex_lt, str_lt, lemma_lex_lt_irreflexive, lemma_lex_lt_total, lemma_lex_lt_transitive};

verus! {

/// Whether the identifiers stand in strictly rising order, which leaves none
/// twice.
pub open spec fn ids_sorted(v: Seq<String>) -> bool {
    forall|i: int, j: int| 0 <= i < j < v.len() ==> lex_lt(#[trigger] v[i]@, #[trigger] v[j]@)
}

/// The identifiers that the list holds.
pub open spec fn id_set(v: Seq<String>) -> Set<Seq<char>> {
    Set::new(|id: Seq<char>| exists|i: int| 0 <= i < v.len() && #[trigger] v[i]@ == id)
}

/// The place of `id` in a sorted list: the number of identifiers that come
/// before it.
pub fn id_position(v: &Vec<String>, id: &String) -> (p: usize)
    requires
        ids_sorted(v@),
    ensures
        p <= v.len(),
        forall|i: int| 0 <= i < p ==> lex_lt(#[trigger] v@[i]@, id@),
        forall|i: int| p <= i < v.len() ==> !lex_lt(#[trigger] v@[i]@, id@),
{
    let mut low: usize = 0;
    let mut high: usize = v.len();
    while low < high
        invariant
            ids_sorted(v@),
            low <= high <= v.len(),
            forall|i: int| 0 <= i < low ==> lex_lt(#[trigger] v@[i]@, id@),
            forall|i: int| high <= i < v.len() ==> !lex_lt(#[trigger] v@[i]@, id@),
        decreases high - low,
    {
        let mid: usize = low + (high - low) / 2;
        if str_lt(v[mid].as_str(), id.as_str()) {
            proof {
                assert forall|i: int| 0 <= i < mid + 1 implies lex_lt(#[trigger] v@[i]@, id@) by {
                    if i < mid {
                        assert(lex_lt(v@[i]@, v@[mid as int]@));
                        lemma_lex_lt_transitive(v@[i]@, v@[mid as int]@, id@);
                    }
                }
            }
            low = mid + 1;
        } else {
            proof {
                assert forall|i: int| mid <= i < v.len() implies !lex_lt(
                    #[trigger] v@[i]@,
                    id@,
                ) by {
                    if i > mid && lex_lt(v@[i]@, id@) {
                        assert(lex_lt(v@[mid as int]@, v@[i]@));
                        lemma_lex_lt_transitive(v@[mid as int]@, v@[i]@, id@);
                    }
                }
            }
            high = mid;
        }
    }
    low
}

/// In a sorted list `id` can stand only at its place.
proof fn lemma_only_at_position(v: Seq<String>, id: Seq<char>, p: int)
    requires
        ids_sorted(v),
        0 <= p <= v.len(),
        forall|i: int| 0 <= i < p ==> lex_lt(#[trigger] v[i]@, id),
        forall|i: int| p <= i < v.len() ==> !lex_lt(#[trigger] v[i]@, id),
    ensures
        id_set(v).contains(id) <==> (p < v.len() && v[p]@ == id),
        p < v.len() && v[p]@ != id ==> lex_lt(id, v[p]@),
        forall|i: int| p < i < v.len() ==> lex_lt(id, #[trigger] v[i]@),
{
    lemma_lex_lt_irreflexive(id);
    if p < v.len() {
        lemma_lex_lt_total(v[p]@, id);
    }
    assert forall|i: int| p < i < v.len() implies lex_lt(id, #[trigger] v[i]@) by {
        assert(lex_lt(v[p]@, v[i]@));
        if v[p]@ != id {
            lemma_lex_lt_transitive(id, v[p]@, v[i]@);
        }
    }
    if id_set(v).contains(id) {
        let i = choose|i: int| 0 <= i < v.len() && #[trigger] v[i]@ == id;
        assert(i == p);
    }
}

/// Whether a sorted list holds `id`.
pub fn has_id(v: &Vec<String>, id: &String) -> (found: bool)
    requires
        ids_sorted(v@),
    ensures
        found == id_set(v@).contains(id@),
{
    let p = id_position(v, id);
    proof {
        lemma_only_at_position(v@, id@, p as int);
    }
    p < v.len() && v[p] == *id
}

/// Puts `id` into a sorted list, unless it is there already.
pub fn insert_id(v: &mut Vec<String>, id: String)
    requires
        ids_sorted(old(v)@),
    ensures
        ids_sorted(final(v)@),
        id_set(final(v)@) == id_set(old(v)@).insert(id@),
{
    let p = id_position(v, &id);
    proof {
        lemma_only_at_position(v@, id@, p as int);
    }
    if p < v.len() && v[p] == id {
        assert(id_set(v@).insert(id@) =~= id_set(v@));
    } else {
        let ghost before = v@;
        v.insert(p, id);
        proof {
            let after = v@;
            assert forall|i: int, j: int| 0 <= i < j < after.len() implies lex_lt(
                #[trigger] after[i]@,
                #[trigger] after[j]@,
            ) by {
                if j < p {
                    assert(after[i] == before[i] && after[j] == before[j]);
                } else if j == p {
                    assert(after[i] == before[i]);
                } else if i < p {
                    assert(after[i] == before[i] && after[j] == before[j - 1]);
                } else if i == p {
                    assert(after[j] == before[j - 1]);
                } else {
                    assert(after[i] == before[i - 1] && after[j] == before[j - 1]);
                }
            }
            assert forall|k: Seq<char>| id_set(after).contains(k) <==> id_set(before).insert(
                id@,
            ).contains(k) by {
                if id_set(after).contains(k) {
                    let i = choose|i: int| 0 <= i < after.len() && #[trigger] after[i]@ == k;
                    if i < p {
                        assert(before[i]@ == k);
                    } else if i > p {
                        assert(before[i - 1]@ == k);
                    }
                }
                if id_set(before).contains(k) {
                    let i = choose|i: int| 0 <= i < before.len() && #[trigger] before[i]@ == k;
                    if i < p {
                        assert(after[i]@ == k);
                    } else {
                        assert(after[i + 1]@ == k);
                    }
                }
                if k == id@ {
                    assert(after[p as int]@ == k);
                }
            }
            assert(id_set(after) =~= id_set(before).insert(id@));
        }
    }
}

/// Whether two lists of identifiers read the same, place by place.
pub open spec fn same_ids(a: Seq<String>, b: Seq<String>) -> bool {
    &&& a.len() == b.len()
    &&& forall|i: int| 0 <= i < a.len() ==> (#[trigger] a[i])@ == b[i]@
}

/// Lists that read the same hold the same identifiers.
pub proof fn lemma_id_set_same(a: Seq<String>, b: Seq<String>)
    requires
        same_ids(a, b),
    ensures
        id_set(a) == id_set(b),
{
    assert forall|id: Seq<char>| id_set(a).contains(id) <==> id_set(b).contains(id) by {
        if id_set(a).contains(id) {
            let i = choose|i: int| 0 <= i < a.len() && #[trigger] a[i]@ == id;
            assert(b[i]@ == id);
        }
        if id_set(b).contains(id) {
            let i = choose|i: int| 0 <= i < b.len() && #[trigger] b[i]@ == id;
            assert(a[i]@ == id);
        }
    }
    assert(id_set(a) =~= id_set(b));
}

/// A sorted list without its last identifier is sorted and holds the others.
proof fn lemma_ids_drop_last(v: Seq<String>)
    requires
        ids_sorted(v),
        v.len() > 0,
    ensures
        ids_sorted(v.drop_last()),
        id_set(v.drop_last()) == id_set(v).remove(v.last()@),
{
    let w = v.drop_last();
    assert forall|i: int, j: int| 0 <= i < j < w.len() implies lex_lt(
        #[trigger] w[i]@,
        #[trigger] w[j]@,
    ) by {
        assert(w[i] == v[i] && w[j] == v[j]);
    }
    lemma_lex_lt_irreflexive(v.last()@);
    assert forall|id: Seq<char>| id_set(w).contains(id) <==> id_set(v).remove(v.last()@).contains(
        id,
    ) by {
        if id_set(w).contains(id) {
            let i = choose|i: int| 0 <= i < w.len() && #[trigger] w[i]@ == id;
            assert(w[i] == v[i]);
            assert(v[i]@ == id);
            assert(lex_lt(v[i]@, v[v.len() - 1]@));
        }
        if id_set(v).remove(v.last()@).contains(id) {
            let i = choose|i: int| 0 <= i < v.len() && #[trigger] v[i]@ == id;
            assert(i < w.len());
            assert(w[i]@ == id);
        }
    }
    assert(id_set(w) =~= id_set(v).remove(v.last()@));
}

/// Two sorted lists that hold the same identifiers read the same.
pub proof fn lemma_sorted_ids_unique(a: Seq<String>, b: Seq<String>)
    requires
        ids_sorted(a),
        ids_sorted(b),
        id_set(a) == id_set(b),
    ensures
        same_ids(a, b),
    decreases a.len(),
{
    if a.len() == 0 {
        if b.len() > 0 {
            assert(b[0]@ == b[0]@);
            assert(id_set(b).contains(b[0]@));
            assert(id_set(a).contains(b[0]@));
        }
    } else if b.len() == 0 {
        assert(a[0]@ == a[0]@);
        assert(id_set(a).contains(a[0]@));
        assert(id_set(b).contains(a[0]@));
    } else {
        let la = a.last()@;
        let lb = b.last()@;
        assert(a[a.len() - 1]@ == la);
        assert(id_set(a).contains(la));
        assert(id_set(b).contains(la));
        let ib = choose|i: int| 0 <= i < b.len() && #[trigger] b[i]@ == la;
        assert(b[b.len() - 1]@ == lb);
        assert(id_set(b).contains(lb));
        assert(id_set(a).contains(lb));
        let ia = choose|i: int| 0 <= i < a.len() && #[trigger] a[i]@ == lb;
        if la != lb {
            assert(ib < b.len() - 1);
            assert(lex_lt(b[ib]@, b[b.len() - 1]@));
            assert(ia < a.len() - 1);
            assert(lex_lt(a[ia]@, a[a.len() - 1]@));
            lemma_lex_lt_transitive(la, lb, la);
            lemma_lex_lt_irreflexive(la);
        }
        lemma_ids_drop_last(a);
        lemma_ids_drop_last(b);
        lemma_sorted_ids_unique(a.drop_last(), b.drop_last());
        assert forall|i: int| 0 <= i < a.len() implies (#[trigger] a[i])@ == b[i]@ by {
            if i < a.len() - 1 {
                assert(a.drop_last()[i] == a[i] && b.drop_last()[i] == b[i]);
            }
        }
    }
}

} // verus!
