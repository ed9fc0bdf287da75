//! Staged records and lists of them kept in the order of their commit
//! identifiers, with no identifier twice.

use vstd::prelude::*;
use crate::text::{lex_lt, str_lt, lemma_lex_lt_irreflexive, lemma_lex_lt_asymmetric, lemma_lex_lt_total, lemma_lex_lt_transitive};

verus! {

/// One staged commit: its identifier and the first line of its message.
///
/// Identity is the identifier alone; the summary is carried along.
#[derive(Debug)]
pub struct IndexEntry {
    pub commit_id: String,
    pub commit_summary: String,
}

impl Clone for IndexEntry {
    fn clone(&self) -> (copy: Self)
        ensures
            copy == *self,
    {
        IndexEntry {
            commit_id: self.commit_id.clone(),
            commit_summary: self.commit_summary.clone(),
        }
    }
}

impl IndexEntry {
    /// A record of the commit `commit_id` with the given summary.
    pub fn new(commit_id: String, commit_summary: String) -> (entry: Self)
        ensures
            entry.commit_id == commit_id,
            entry.commit_summary == commit_summary,
    {
        IndexEntry { commit_id, commit_summary }
    }
}

/// The summary under which a commit is staged: its own, or an empty one
/// where it has none.
pub open spec fn summary_or_empty(summary: Option<String>) -> Seq<char> {
    match summary {
        Some(s) => s@,
        None => Seq::<char>::empty(),
    }
}

/// Whether some record of `v` names the commit `id`.
pub open spec fn holds_id(v: Seq<IndexEntry>, id: Seq<char>) -> bool {
    exists|i: int| 0 <= i < v.len() && #[trigger] v[i].commit_id@ == id
}

/// Whether the records stand in strictly rising order of identifier, which
/// leaves no identifier twice.
pub open spec fn sorted_by_id(v: Seq<IndexEntry>) -> bool {
    forall|i: int, j: int|
        0 <= i < j < v.len() ==> lex_lt(#[trigger] v[i].commit_id@, #[trigger] v[j].commit_id@)
}

/// The summary recorded for each identifier once the records have been
/// taken in one after the other: for an identifier that occurs more than once
/// the last record counts.
pub open spec fn staged(v: Seq<IndexEntry>) -> Map<Seq<char>, Seq<char>>
    decreases v.len(),
{
    if v.len() == 0 {
        Map::empty()
    } else {
        staged(v.drop_last()).insert(v.last().commit_id@, v.last().commit_summary@)
    }
}

/// The identifiers that `staged` knows are those of the records.
pub proof fn lemma_staged_dom(v: Seq<IndexEntry>)
    ensures
        forall|id: Seq<char>| #[trigger] staged(v).dom().contains(id) <==> holds_id(v, id),
    decreases v.len(),
{
    if v.len() == 0 {
    } else {
        let w = v.drop_last();
        lemma_staged_dom(w);
        assert forall|id: Seq<char>| #[trigger] staged(v).dom().contains(id) <==> holds_id(
            v,
            id,
        ) by {
            assert(staged(v) == staged(w).insert(v.last().commit_id@, v.last().commit_summary@));
            if holds_id(v, id) {
                let i = choose|i: int| 0 <= i < v.len() && #[trigger] v[i].commit_id@ == id;
                if i < w.len() {
                    assert(w[i].commit_id@ == id);
                    assert(holds_id(w, id));
                    assert(staged(w).dom().contains(id));
                }
            }
            if staged(v).dom().contains(id) {
                if id == v.last().commit_id@ {
                    assert(v[v.len() - 1].commit_id@ == id);
                } else {
                    assert(staged(w).dom().contains(id));
                    assert(holds_id(w, id));
                    let i = choose|i: int| 0 <= i < w.len() && #[trigger] w[i].commit_id@ == id;
                    assert(v[i].commit_id@ == id);
                }
            }
        }
    }
}

/// In a sorted list each record's summary is the one staged for its
/// identifier.
pub proof fn lemma_staged_value(v: Seq<IndexEntry>, i: int)
    requires
        sorted_by_id(v),
        0 <= i < v.len(),
    ensures
        staged(v).dom().contains(v[i].commit_id@),
        staged(v)[v[i].commit_id@] == v[i].commit_summary@,
    decreases v.len(),
{
    let w = v.drop_last();
    if i == v.len() - 1 {
    } else {
        assert(sorted_by_id(w)) by {
            assert forall|a: int, b: int| 0 <= a < b < w.len() implies lex_lt(
                #[trigger] w[a].commit_id@,
                #[trigger] w[b].commit_id@,
            ) by {
                assert(w[a] == v[a] && w[b] == v[b]);
            }
        }
        lemma_staged_value(w, i);
        assert(w[i] == v[i]);
        assert(lex_lt(v[i].commit_id@, v[v.len() - 1].commit_id@));
        lemma_lex_lt_irreflexive(v[i].commit_id@);
    }
}

/// Two sorted lists that stage the same summaries are the same list, record
/// by record.
pub proof fn lemma_sorted_unique(a: Seq<IndexEntry>, b: Seq<IndexEntry>)
    requires
        sorted_by_id(a),
        sorted_by_id(b),
        staged(a) == staged(b),
    ensures
        same_entries(a, b),
    decreases a.len(),
{
    lemma_staged_dom(a);
    lemma_staged_dom(b);
    if a.len() == 0 {
        if b.len() > 0 {
            assert(b[0].commit_id@ == b[0].commit_id@);
            assert(holds_id(b, b[0].commit_id@));
            assert(staged(a).dom().contains(b[0].commit_id@));
        }
    } else if b.len() == 0 {
        assert(a[0].commit_id@ == a[0].commit_id@);
        assert(holds_id(a, a[0].commit_id@));
        assert(staged(b).dom().contains(a[0].commit_id@));
    } else {
        let la = a.last();
        let lb = b.last();
        // The greatest identifier of each list occurs in the other, so the
        // two are the same.
        assert(a[a.len() - 1].commit_id@ == la.commit_id@);
        assert(holds_id(a, la.commit_id@));
        assert(staged(b).dom().contains(la.commit_id@));
        assert(holds_id(b, la.commit_id@));
        let ib = choose|i: int| 0 <= i < b.len() && #[trigger] b[i].commit_id@ == la.commit_id@;
        assert(b[b.len() - 1].commit_id@ == lb.commit_id@);
        assert(holds_id(b, lb.commit_id@));
        assert(staged(a).dom().contains(lb.commit_id@));
        assert(holds_id(a, lb.commit_id@));
        let ia = choose|i: int| 0 <= i < a.len() && #[trigger] a[i].commit_id@ == lb.commit_id@;
        if la.commit_id@ != lb.commit_id@ {
            assert(ib < b.len() - 1);
            assert(lex_lt(b[ib].commit_id@, b[b.len() - 1].commit_id@));
            assert(ia < a.len() - 1);
            assert(lex_lt(a[ia].commit_id@, a[a.len() - 1].commit_id@));
            lemma_lex_lt_asymmetric(la.commit_id@, lb.commit_id@);
        }
        lemma_staged_value(a, a.len() - 1);
        lemma_staged_value(b, b.len() - 1);
        let wa = a.drop_last();
        let wb = b.drop_last();
        lemma_drop_last_sorted(a);
        lemma_drop_last_sorted(b);
        lemma_staged_dom(wa);
        lemma_staged_dom(wb);
        assert(!holds_id(wa, la.commit_id@)) by {
            if holds_id(wa, la.commit_id@) {
                let i = choose|i: int| 0 <= i < wa.len() && #[trigger] wa[i].commit_id@ == la.commit_id@;
                assert(wa[i] == a[i]);
                assert(lex_lt(a[i].commit_id@, a[a.len() - 1].commit_id@));
                lemma_lex_lt_irreflexive(la.commit_id@);
            }
        }
        assert(!holds_id(wb, lb.commit_id@)) by {
            if holds_id(wb, lb.commit_id@) {
                let i = choose|i: int| 0 <= i < wb.len() && #[trigger] wb[i].commit_id@ == lb.commit_id@;
                assert(wb[i] == b[i]);
                assert(lex_lt(b[i].commit_id@, b[b.len() - 1].commit_id@));
                lemma_lex_lt_irreflexive(lb.commit_id@);
            }
        }
        assert(staged(wa) =~= staged(a).remove(la.commit_id@));
        assert(staged(wb) =~= staged(b).remove(lb.commit_id@));
        lemma_sorted_unique(wa, wb);
        assert forall|i: int| 0 <= i < a.len() implies (#[trigger] a[i]).commit_id@
            == b[i].commit_id@ && a[i].commit_summary@ == b[i].commit_summary@ by {
            if i < wa.len() {
                assert(wa[i] == a[i] && wb[i] == b[i]);
            }
        }
    }
}

/// A sorted list stays sorted without its last record.
pub proof fn lemma_drop_last_sorted(v: Seq<IndexEntry>)
    requires
        sorted_by_id(v),
        v.len() > 0,
    ensures
        sorted_by_id(v.drop_last()),
{
    let w = v.drop_last();
    assert forall|a: int, b: int| 0 <= a < b < w.len() implies lex_lt(
        #[trigger] w[a].commit_id@,
        #[trigger] w[b].commit_id@,
    ) by {
        assert(w[a] == v[a] && w[b] == v[b]);
    }
}

/// What two sorted lists stage is told apart record by record: if every
/// identifier is held by both or by neither, and the summaries agree wherever
/// the lists hold the same identifier, they stage the same.
proof fn lemma_staged_agree(
    a: Seq<IndexEntry>,
    b: Map<Seq<char>, Seq<char>>,
)
    requires
        sorted_by_id(a),
        forall|id: Seq<char>| #[trigger] b.dom().contains(id) <==> holds_id(a, id),
        forall|i: int| 0 <= i < a.len() ==> b[(#[trigger] a[i]).commit_id@] == a[i].commit_summary@,
    ensures
        staged(a) == b,
{
    lemma_staged_dom(a);
    assert forall|id: Seq<char>| staged(a).dom().contains(id) implies #[trigger] staged(a)[id]
        == b[id] by {
        assert(holds_id(a, id));
        let i = choose|i: int| 0 <= i < a.len() && #[trigger] a[i].commit_id@ == id;
        lemma_staged_value(a, i);
    }
    assert(staged(a) =~= b);
}

/// Putting a record in at its place in the order stages its summary and
/// leaves the others as they were.
pub proof fn lemma_staged_insert_at(v: Seq<IndexEntry>, p: int, e: IndexEntry)
    requires
        sorted_by_id(v),
        0 <= p <= v.len(),
        forall|i: int| 0 <= i < p ==> lex_lt((#[trigger] v[i]).commit_id@, e.commit_id@),
        forall|i: int| p <= i < v.len() ==> lex_lt(e.commit_id@, (#[trigger] v[i]).commit_id@),
    ensures
        sorted_by_id(v.insert(p, e)),
        staged(v.insert(p, e)) == staged(v).insert(e.commit_id@, e.commit_summary@),
{
    let w = v.insert(p, e);
    let id = e.commit_id@;
    assert forall|i: int, j: int| 0 <= i < j < w.len() implies lex_lt(
        #[trigger] w[i].commit_id@,
        #[trigger] w[j].commit_id@,
    ) by {
        if j < p {
            assert(w[i] == v[i] && w[j] == v[j]);
        } else if j == p {
            assert(w[i] == v[i]);
        } else if i < p {
            assert(w[i] == v[i] && w[j] == v[j - 1]);
        } else if i == p {
            assert(w[j] == v[j - 1]);
        } else {
            assert(w[i] == v[i - 1] && w[j] == v[j - 1]);
        }
    }
    let target = staged(v).insert(id, e.commit_summary@);
    lemma_staged_dom(v);
    assert forall|k: Seq<char>| #[trigger] target.dom().contains(k) <==> holds_id(w, k) by {
        if holds_id(w, k) {
            let i = choose|i: int| 0 <= i < w.len() && #[trigger] w[i].commit_id@ == k;
            if i < p {
                assert(v[i].commit_id@ == k);
                assert(holds_id(v, k));
            } else if i > p {
                assert(v[i - 1].commit_id@ == k);
                assert(holds_id(v, k));
            }
        }
        if target.dom().contains(k) {
            if k == id {
                assert(w[p].commit_id@ == k);
            } else {
                assert(staged(v).dom().contains(k));
                assert(holds_id(v, k));
                let i = choose|i: int| 0 <= i < v.len() && #[trigger] v[i].commit_id@ == k;
                if i < p {
                    assert(w[i].commit_id@ == k);
                } else {
                    assert(w[i + 1].commit_id@ == k);
                }
            }
        }
    }
    assert forall|i: int| 0 <= i < w.len() implies target[(#[trigger] w[i]).commit_id@]
        == w[i].commit_summary@ by {
        if i < p {
            assert(w[i] == v[i]);
            lemma_staged_value(v, i);
            lemma_lex_lt_irreflexive(id);
        } else if i > p {
            assert(w[i] == v[i - 1]);
            lemma_staged_value(v, i - 1);
            lemma_lex_lt_irreflexive(id);
        }
    }
    lemma_staged_agree(w, target);
}

/// Replacing a record by one of the same identifier stages the new summary
/// and leaves the others as they were.
pub proof fn lemma_staged_update_at(v: Seq<IndexEntry>, p: int, e: IndexEntry)
    requires
        sorted_by_id(v),
        0 <= p < v.len(),
        v[p].commit_id@ == e.commit_id@,
    ensures
        sorted_by_id(v.update(p, e)),
        staged(v.update(p, e)) == staged(v).insert(e.commit_id@, e.commit_summary@),
{
    let w = v.update(p, e);
    let id = e.commit_id@;
    assert forall|i: int, j: int| 0 <= i < j < w.len() implies lex_lt(
        #[trigger] w[i].commit_id@,
        #[trigger] w[j].commit_id@,
    ) by {
        assert(w[i].commit_id@ == v[i].commit_id@ && w[j].commit_id@ == v[j].commit_id@);
    }
    let target = staged(v).insert(id, e.commit_summary@);
    lemma_staged_dom(v);
    assert forall|k: Seq<char>| #[trigger] target.dom().contains(k) <==> holds_id(w, k) by {
        if holds_id(w, k) {
            let i = choose|i: int| 0 <= i < w.len() && #[trigger] w[i].commit_id@ == k;
            assert(v[i].commit_id@ == k);
            assert(holds_id(v, k));
        }
        if target.dom().contains(k) {
            if k == id {
                assert(w[p].commit_id@ == k);
            } else {
                assert(staged(v).dom().contains(k));
                assert(holds_id(v, k));
                let i = choose|i: int| 0 <= i < v.len() && #[trigger] v[i].commit_id@ == k;
                assert(w[i].commit_id@ == k);
            }
        }
    }
    assert forall|i: int| 0 <= i < w.len() implies target[(#[trigger] w[i]).commit_id@]
        == w[i].commit_summary@ by {
        if i != p {
            assert(w[i] == v[i]);
            lemma_staged_value(v, i);
            if i < p {
                assert(lex_lt(v[i].commit_id@, v[p].commit_id@));
            } else {
                assert(lex_lt(v[p].commit_id@, v[i].commit_id@));
            }
            lemma_lex_lt_irreflexive(id);
        }
    }
    lemma_staged_agree(w, target);
}

/// Taking a record out drops its identifier and leaves the others as they
/// were.
pub proof fn lemma_staged_remove_at(v: Seq<IndexEntry>, p: int)
    requires
        sorted_by_id(v),
        0 <= p < v.len(),
    ensures
        sorted_by_id(v.remove(p)),
        staged(v.remove(p)) == staged(v).remove(v[p].commit_id@),
{
    let w = v.remove(p);
    let id = v[p].commit_id@;
    assert forall|i: int, j: int| 0 <= i < j < w.len() implies lex_lt(
        #[trigger] w[i].commit_id@,
        #[trigger] w[j].commit_id@,
    ) by {
        let a = if i < p { i } else { i + 1 };
        let b = if j < p { j } else { j + 1 };
        assert(w[i] == v[a] && w[j] == v[b]);
    }
    let target = staged(v).remove(id);
    lemma_staged_dom(v);
    assert forall|k: Seq<char>| #[trigger] target.dom().contains(k) <==> holds_id(w, k) by {
        if holds_id(w, k) {
            let i = choose|i: int| 0 <= i < w.len() && #[trigger] w[i].commit_id@ == k;
            let a = if i < p { i } else { i + 1 };
            assert(w[i] == v[a]);
            assert(v[a].commit_id@ == k);
            assert(holds_id(v, k));
            if a < p {
                assert(lex_lt(v[a].commit_id@, v[p].commit_id@));
            } else {
                assert(lex_lt(v[p].commit_id@, v[a].commit_id@));
            }
            lemma_lex_lt_irreflexive(id);
        }
        if target.dom().contains(k) {
            assert(staged(v).dom().contains(k));
            assert(holds_id(v, k));
            let i = choose|i: int| 0 <= i < v.len() && #[trigger] v[i].commit_id@ == k;
            if i < p {
                assert(w[i].commit_id@ == k);
            } else {
                assert(w[i - 1].commit_id@ == k);
            }
        }
    }
    assert forall|i: int| 0 <= i < w.len() implies target[(#[trigger] w[i]).commit_id@]
        == w[i].commit_summary@ by {
        let a = if i < p { i } else { i + 1 };
        assert(w[i] == v[a]);
        lemma_staged_value(v, a);
        if a < p {
            assert(lex_lt(v[a].commit_id@, v[p].commit_id@));
        } else {
            assert(lex_lt(v[p].commit_id@, v[a].commit_id@));
        }
        lemma_lex_lt_irreflexive(id);
    }
    lemma_staged_agree(w, target);
}

/// The place of `id` in a sorted list: the number of records whose
/// identifier comes before it.
pub fn position(v: &Vec<IndexEntry>, id: &String) -> (p: usize)
    requires
        sorted_by_id(v@),
    ensures
        p <= v.len(),
        forall|i: int| 0 <= i < p ==> lex_lt((#[trigger] v@[i]).commit_id@, id@),
        forall|i: int| p <= i < v.len() ==> !lex_lt((#[trigger] v@[i]).commit_id@, id@),
{
    let mut low: usize = 0;
    let mut high: usize = v.len();
    while low < high
        invariant
            sorted_by_id(v@),
            low <= high <= v.len(),
            forall|i: int| 0 <= i < low ==> lex_lt((#[trigger] v@[i]).commit_id@, id@),
            forall|i: int| high <= i < v.len() ==> !lex_lt((#[trigger] v@[i]).commit_id@, id@),
        decreases high - low,
    {
        let mid: usize = low + (high - low) / 2;
        if str_lt(v[mid].commit_id.as_str(), id.as_str()) {
            proof {
                assert forall|i: int| 0 <= i < mid + 1 implies lex_lt(
                    (#[trigger] v@[i]).commit_id@,
                    id@,
                ) by {
                    if i < mid {
                        assert(lex_lt(v@[i].commit_id@, v@[mid as int].commit_id@));
                        lemma_lex_lt_transitive(v@[i].commit_id@, v@[mid as int].commit_id@, id@);
                    }
                }
            }
            low = mid + 1;
        } else {
            proof {
                assert forall|i: int| mid <= i < v.len() implies !lex_lt(
                    (#[trigger] v@[i]).commit_id@,
                    id@,
                ) by {
                    if i > mid && lex_lt(v@[i].commit_id@, id@) {
                        assert(lex_lt(v@[mid as int].commit_id@, v@[i].commit_id@));
                        lemma_lex_lt_transitive(v@[mid as int].commit_id@, v@[i].commit_id@, id@);
                    }
                }
            }
            high = mid;
        }
    }
    low
}

/// Whether a sorted list holds a record of the commit `id`.
pub fn holds(v: &Vec<IndexEntry>, id: &String) -> (found: bool)
    requires
        sorted_by_id(v@),
    ensures
        found == staged(v@).dom().contains(id@),
{
    let p = position(v, id);
    proof {
        lemma_staged_dom(v@);
        if holds_id(v@, id@) {
            let i = choose|i: int| 0 <= i < v@.len() && #[trigger] v@[i].commit_id@ == id@;
            lemma_lex_lt_irreflexive(id@);
            if i > p {
                assert(lex_lt(v@[p as int].commit_id@, v@[i].commit_id@));
                lemma_lex_lt_total(v@[p as int].commit_id@, id@);
            }
        }
    }
    p < v.len() && v[p].commit_id == *id
}

/// Stages `e` in a sorted list: a record of the same commit is replaced,
/// otherwise `e` goes in at its place in the order.
pub fn upsert(v: &mut Vec<IndexEntry>, e: IndexEntry)
    requires
        sorted_by_id(old(v)@),
    ensures
        sorted_by_id(final(v)@),
        staged(final(v)@) == staged(old(v)@).insert(e.commit_id@, e.commit_summary@),
{
    let p = position(v, &e.commit_id);
    if p < v.len() && v[p].commit_id == e.commit_id {
        proof {
            lemma_staged_update_at(v@, p as int, e);
        }
        v.set(p, e);
    } else {
        proof {
            assert forall|i: int| p <= i < v.len() implies lex_lt(
                e.commit_id@,
                (#[trigger] v@[i]).commit_id@,
            ) by {
                lemma_lex_lt_total(v@[p as int].commit_id@, e.commit_id@);
                if i > p {
                    assert(lex_lt(v@[p as int].commit_id@, v@[i].commit_id@));
                    lemma_lex_lt_transitive(e.commit_id@, v@[p as int].commit_id@, v@[i].commit_id@);
                }
            }
            lemma_staged_insert_at(v@, p as int, e);
        }
        v.insert(p, e);
    }
}

/// Takes the record of the commit `id` out of a sorted list, if there is
/// one.
pub fn remove_id(v: &mut Vec<IndexEntry>, id: &String)
    requires
        sorted_by_id(old(v)@),
    ensures
        sorted_by_id(final(v)@),
        staged(final(v)@) == staged(old(v)@).remove(id@),
{
    let p = position(v, id);
    if p < v.len() && v[p].commit_id == *id {
        proof {
            lemma_staged_remove_at(v@, p as int);
        }
        v.remove(p);
    } else {
        proof {
            lemma_staged_dom(v@);
            if holds_id(v@, id@) {
                let i = choose|i: int| 0 <= i < v@.len() && #[trigger] v@[i].commit_id@ == id@;
                lemma_lex_lt_irreflexive(id@);
                if i > p {
                    assert(lex_lt(v@[p as int].commit_id@, v@[i].commit_id@));
                    lemma_lex_lt_total(v@[p as int].commit_id@, id@);
                }
            }
            assert(staged(v@).remove(id@) =~= staged(v@));
        }
    }
}

/// A copy of the records as they stand.
pub fn copy_entries(v: &Vec<IndexEntry>) -> (out: Vec<IndexEntry>)
    ensures
        out@ == v@,
{
    let mut out: Vec<IndexEntry> = Vec::new();
    let n: usize = v.len();
    let mut j: usize = 0;
    while j < n
        invariant
            n == v.len(),
            j <= n,
            out@ == v@.take(j as int),
        decreases n - j,
    {
        out.push(v[j].clone());
        assert(v@.take(j as int + 1) =~= v@.take(j as int).push(v@[j as int]));
        j = j + 1;
    }
    assert(v@.take(n as int) =~= v@);
    out
}

/// Whether two lists read the same, record by record.
pub open spec fn same_entries(a: Seq<IndexEntry>, b: Seq<IndexEntry>) -> bool {
    &&& a.len() == b.len()
    &&& forall|i: int|
        0 <= i < a.len() ==> (#[trigger] a[i]).commit_id@ == b[i].commit_id@ && a[i].commit_summary@
            == b[i].commit_summary@
}

/// Lists that read the same stage the same.
pub proof fn lemma_staged_same(a: Seq<IndexEntry>, b: Seq<IndexEntry>)
    requires
        same_entries(a, b),
    ensures
        staged(a) == staged(b),
    decreases a.len(),
{
    if a.len() > 0 {
        let wa = a.drop_last();
        let wb = b.drop_last();
        assert forall|i: int| 0 <= i < wa.len() implies (#[trigger] wa[i]).commit_id@
            == wb[i].commit_id@ && wa[i].commit_summary@ == wb[i].commit_summary@ by {
            assert(wa[i] == a[i] && wb[i] == b[i]);
        }
        lemma_staged_same(wa, wb);
        assert(a[a.len() - 1].commit_id@ == b[a.len() - 1].commit_id@);
    }
}

} // verus!
