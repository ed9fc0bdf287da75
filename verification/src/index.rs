//! The staging index: which commits are staged as trusted, which as
//! distrusted, and every identifier that has been classified.

use vstd::prelude::*;
use vstd::std_specs::cmp::PartialEqSpecImpl;
use crate::entries::{IndexEntry, copy_entries, holds_id, same_entries, sorted_by_id, staged, holds, upsert, remove_id, lemma_staged_dom, lemma_staged_same, lemma_sorted_unique};
use crate::ids::{ids_sorted, id_set, same_ids, has_id, insert_id, lemma_id_set_same, lemma_sorted_ids_unique};

verus! {

/// The classification given to a staged commit.
#[derive(Clone, Copy, Debug, PartialEq, Eq, Structural)]
pub enum TrustOrDistrust {
    Trust,
    Distrust,
}

/// What an index records, as mathematics: the summary staged for each
/// trusted identifier, the same for each distrusted one, and the set of
/// identifiers known to the index.
pub struct IndexView {
    pub trust: Map<Seq<char>, Seq<char>>,
    pub distrust: Map<Seq<char>, Seq<char>>,
    pub known: Set<Seq<char>>,
}

impl IndexView {
    /// Nothing staged.
    pub open spec fn empty() -> IndexView {
        IndexView { trust: Map::empty(), distrust: Map::empty(), known: Set::empty() }
    }

    /// No commit is both trusted and distrusted, and the known identifiers
    /// are exactly the staged ones.
    pub open spec fn valid(self) -> bool {
        &&& self.trust.dom().disjoint(self.distrust.dom())
        &&& self.known == self.trust.dom().union(self.distrust.dom())
    }

    /// The index after `records` have been staged under `status`: they join
    /// their set, where a record of the same commit is replaced; the other set
    /// loses every commit among them; all their identifiers become known.
    pub open spec fn with_staged(self, records: Seq<IndexEntry>, status: TrustOrDistrust) -> IndexView {
        let batch = staged(records);
        match status {
            TrustOrDistrust::Trust => IndexView {
                trust: self.trust.union_prefer_right(batch),
                distrust: self.distrust.remove_keys(batch.dom()),
                known: self.known.union(batch.dom()),
            },
            TrustOrDistrust::Distrust => IndexView {
                trust: self.trust.remove_keys(batch.dom()),
                distrust: self.distrust.union_prefer_right(batch),
                known: self.known.union(batch.dom()),
            },
        }
    }
}

/// The plain contents of an index, as they stand in its file: the two
/// lists of records and the list of known identifiers.
#[derive(Debug)]
pub struct IndexRecords {
    pub trust: Vec<IndexEntry>,
    pub distrust: Vec<IndexEntry>,
    pub all_commit_ids: Vec<String>,
}

/// Whether two lists of records can stand side by side in one index: no
/// commit is named by both.
pub open spec fn consistent(trust: Seq<IndexEntry>, distrust: Seq<IndexEntry>) -> bool {
    staged(trust).dom().disjoint(staged(distrust).dom())
}

/// The index that stored contents stand for. Contents that are missing, or
/// that name a commit in both lists, stand for the empty index. The stored
/// list of known identifiers is not relied on: the known identifiers are those
/// of the records.
pub open spec fn loaded(records: Option<IndexRecords>) -> IndexView {
    match records {
        Some(r) => if consistent(r.trust@, r.distrust@) {
            IndexView {
                trust: staged(r.trust@),
                distrust: staged(r.distrust@),
                known: staged(r.trust@).dom().union(staged(r.distrust@).dom()),
            }
        } else {
            IndexView::empty()
        },
        None => IndexView::empty(),
    }
}

/// Commits staged for an ongoing review.
///
/// Each of the two lists is kept in rising order of commit identifier and
/// holds no identifier twice; no identifier stands in both.
#[derive(Debug)]
pub struct Index {
    trust: Vec<IndexEntry>,
    distrust: Vec<IndexEntry>,
    all_commit_ids: Vec<String>,
}

impl View for Index {
    type V = IndexView;

    closed spec fn view(&self) -> IndexView {
        IndexView {
            trust: staged(self.trust@),
            distrust: staged(self.distrust@),
            known: id_set(self.all_commit_ids@),
        }
    }
}

/// Whether two lists of identifiers read the same.
fn ids_equal(a: &Vec<String>, b: &Vec<String>) -> (same: bool)
    ensures
        same == same_ids(a@, b@),
{
    if a.len() != b.len() {
        return false;
    }
    let n: usize = a.len();
    let mut j: usize = 0;
    while j < n
        invariant
            n == a.len(),
            n == b.len(),
            j <= n,
            forall|i: int| 0 <= i < j ==> (#[trigger] a@[i])@ == b@[i]@,
        decreases n - j,
    {
        if a[j] != b[j] {
            return false;
        }
        j = j + 1;
    }
    true
}

/// Whether two lists of records read the same.
fn entries_equal(a: &Vec<IndexEntry>, b: &Vec<IndexEntry>) -> (same: bool)
    ensures
        same == same_entries(a@, b@),
{
    if a.len() != b.len() {
        return false;
    }
    let n: usize = a.len();
    let mut j: usize = 0;
    while j < n
        invariant
            n == a.len(),
            n == b.len(),
            j <= n,
            forall|i: int|
                0 <= i < j ==> (#[trigger] a@[i]).commit_id@ == b@[i].commit_id@
                    && a@[i].commit_summary@ == b@[i].commit_summary@,
        decreases n - j,
    {
        if a[j].commit_id != b[j].commit_id || a[j].commit_summary != b[j].commit_summary {
            return false;
        }
        j = j + 1;
    }
    true
}

impl PartialEq for Index {
    fn eq(&self, other: &Index) -> (same: bool) {
        entries_equal(&self.trust, &other.trust) && entries_equal(&self.distrust, &other.distrust)
            && ids_equal(&self.all_commit_ids, &other.all_commit_ids)
    }
}

impl PartialEqSpecImpl for Index {
    open spec fn obeys_eq_spec() -> bool {
        true
    }

    /// Two indexes are equal where their lists read the same.
    open spec fn eq_spec(&self, other: &Index) -> bool {
        self.same_records(other)
    }
}

impl Default for Index {
    fn default() -> (index: Index)
        ensures
            index.wf(),
            index@ == IndexView::empty(),
    {
        Index::new()
    }
}

/// Stages every record of `batch` in `target`, takes its commit out of
/// `opposite`, and makes its identifier known.
fn stage_into(
    target: &mut Vec<IndexEntry>,
    opposite: &mut Vec<IndexEntry>,
    known: &mut Vec<String>,
    batch: &Vec<IndexEntry>,
)
    requires
        sorted_by_id(old(target)@),
        sorted_by_id(old(opposite)@),
        ids_sorted(old(known)@),
    ensures
        sorted_by_id(final(target)@),
        sorted_by_id(final(opposite)@),
        ids_sorted(final(known)@),
        staged(final(target)@) == staged(old(target)@).union_prefer_right(staged(batch@)),
        staged(final(opposite)@) == staged(old(opposite)@).remove_keys(staged(batch@).dom()),
        id_set(final(known)@) == id_set(old(known)@).union(staged(batch@).dom()),
{
    let ghost target0 = staged(target@);
    let ghost opposite0 = staged(opposite@);
    let ghost known0 = id_set(known@);
    let n: usize = batch.len();
    let mut j: usize = 0;
    proof {
        assert(batch@.take(0) =~= Seq::<IndexEntry>::empty());
        assert(target0.union_prefer_right(Map::<Seq<char>, Seq<char>>::empty()) =~= target0);
        assert(opposite0.remove_keys(Map::<Seq<char>, Seq<char>>::empty().dom()) =~= opposite0);
        assert(known0.union(Map::<Seq<char>, Seq<char>>::empty().dom()) =~= known0);
    }
    while j < n
        invariant
            n == batch.len(),
            j <= n,
            sorted_by_id(target@),
            sorted_by_id(opposite@),
            ids_sorted(known@),
            staged(target@) == target0.union_prefer_right(staged(batch@.take(j as int))),
            staged(opposite@) == opposite0.remove_keys(staged(batch@.take(j as int)).dom()),
            id_set(known@) == known0.union(staged(batch@.take(j as int)).dom()),
        decreases n - j,
    {
        let entry = batch[j].clone();
        proof {
            let done = staged(batch@.take(j as int));
            let next = batch@.take(j as int + 1);
            assert(next.drop_last() =~= batch@.take(j as int));
            assert(next.last() == batch@[j as int]);
            let more = staged(next);
            assert(more == done.insert(entry.commit_id@, entry.commit_summary@));
            assert(target0.union_prefer_right(done).insert(entry.commit_id@, entry.commit_summary@)
                =~= target0.union_prefer_right(more));
            assert(opposite0.remove_keys(done.dom()).remove(entry.commit_id@)
                =~= opposite0.remove_keys(more.dom()));
            assert(known0.union(done.dom()).insert(entry.commit_id@) =~= known0.union(more.dom()));
        }
        remove_id(opposite, &entry.commit_id);
        insert_id(known, entry.commit_id.clone());
        upsert(target, entry);
        j = j + 1;
    }
    assert(batch@.take(n as int) =~= batch@);
}

/// The records of `v` in rising order of identifier, the last record of a
/// commit standing for the earlier ones.
fn sorted_copy(v: &Vec<IndexEntry>) -> (out: Vec<IndexEntry>)
    ensures
        sorted_by_id(out@),
        staged(out@) == staged(v@),
{
    let mut out: Vec<IndexEntry> = Vec::new();
    let n: usize = v.len();
    let mut j: usize = 0;
    assert(v@.take(0) =~= out@);
    while j < n
        invariant
            n == v.len(),
            j <= n,
            sorted_by_id(out@),
            staged(out@) == staged(v@.take(j as int)),
        decreases n - j,
    {
        let entry = v[j].clone();
        proof {
            let next = v@.take(j as int + 1);
            assert(next.drop_last() =~= v@.take(j as int));
            assert(next.last() == v@[j as int]);
        }
        upsert(&mut out, entry);
        j = j + 1;
    }
    assert(v@.take(n as int) =~= v@);
    out
}

/// Whether some commit is named in both of two sorted lists.
fn overlap(a: &Vec<IndexEntry>, b: &Vec<IndexEntry>) -> (shared: bool)
    requires
        sorted_by_id(a@),
        sorted_by_id(b@),
    ensures
        shared == !consistent(a@, b@),
{
    let n: usize = a.len();
    let mut j: usize = 0;
    proof {
        lemma_staged_dom(a@);
    }
    while j < n
        invariant
            n == a.len(),
            j <= n,
            sorted_by_id(b@),
            forall|i: int| 0 <= i < j ==> !staged(b@).dom().contains((#[trigger] a@[i]).commit_id@),
            forall|id: Seq<char>| #[trigger] staged(a@).dom().contains(id) <==> holds_id(a@, id),
        decreases n - j,
    {
        if holds(b, &a[j].commit_id) {
            proof {
                let id = a@[j as int].commit_id@;
                assert(holds_id(a@, id));
                assert(staged(a@).dom().contains(id) && staged(b@).dom().contains(id));
            }
            return true;
        }
        j = j + 1;
    }
    proof {
        assert forall|id: Seq<char>|
            !(staged(a@).dom().contains(id) && staged(b@).dom().contains(id)) by {
            if staged(a@).dom().contains(id) {
                assert(holds_id(a@, id));
                let i = choose|i: int| 0 <= i < a@.len() && #[trigger] a@[i].commit_id@ == id;
                assert(!staged(b@).dom().contains(a@[i].commit_id@));
            }
        }
    }
    false
}

/// Makes the identifier of every record of `v` known.
fn learn_ids(known: &mut Vec<String>, v: &Vec<IndexEntry>)
    requires
        ids_sorted(old(known)@),
    ensures
        ids_sorted(final(known)@),
        id_set(final(known)@) == id_set(old(known)@).union(staged(v@).dom()),
{
    let ghost known0 = id_set(known@);
    let n: usize = v.len();
    let mut j: usize = 0;
    proof {
        assert(v@.take(0) =~= Seq::<IndexEntry>::empty());
        assert(known0.union(staged(v@.take(0)).dom()) =~= known0);
    }
    while j < n
        invariant
            n == v.len(),
            j <= n,
            ids_sorted(known@),
            id_set(known@) == known0.union(staged(v@.take(j as int)).dom()),
        decreases n - j,
    {
        proof {
            let done = staged(v@.take(j as int));
            let next = v@.take(j as int + 1);
            assert(next.drop_last() =~= v@.take(j as int));
            assert(next.last() == v@[j as int]);
            assert(known0.union(done.dom()).insert(v@[j as int].commit_id@) =~= known0.union(
                staged(next).dom(),
            ));
        }
        insert_id(known, v[j].commit_id.clone());
        j = j + 1;
    }
    assert(v@.take(n as int) =~= v@);
}

/// A copy of the identifiers as they stand.
fn copy_ids(v: &Vec<String>) -> (out: Vec<String>)
    ensures
        out@ == v@,
{
    let mut out: Vec<String> = Vec::new();
    let n: usize = v.len();
    let mut j: usize = 0;
    while j < n
        invariant
            n == v.len(),
            j <= n,
            out@ == v@.take(j as int),
        decreases n - j,
    {
        out.push(v[j].clone());
        assert(v@.take(j as int + 1) =~= v@.take(j as int).push(v@[j as int]));
        j = j + 1;
    }
    assert(v@.take(n as int) =~= v@);
    out
}

impl Index {
    /// The lists are in order and the index records nothing contradictory.
    /// This holds of every index.
    #[verifier::type_invariant]
    pub closed spec fn wf(&self) -> bool {
        &&& sorted_by_id(self.trust@)
        &&& sorted_by_id(self.distrust@)
        &&& ids_sorted(self.all_commit_ids@)
        &&& self@.valid()
    }

    /// Whether the lists of both indexes read the same, place by place.
    pub closed spec fn same_records(&self, other: &Index) -> bool {
        &&& same_entries(self.trust@, other.trust@)
        &&& same_entries(self.distrust@, other.distrust@)
        &&& same_ids(self.all_commit_ids@, other.all_commit_ids@)
    }

    /// Well-formed indexes are equal exactly if they record the same.
    pub proof fn lemma_equal_by_view(&self, other: &Index)
        requires
            self.wf(),
            other.wf(),
        ensures
            self.same_records(other) <==> self@ == other@,
    {
        if self.same_records(other) {
            lemma_staged_same(self.trust@, other.trust@);
            lemma_staged_same(self.distrust@, other.distrust@);
            lemma_id_set_same(self.all_commit_ids@, other.all_commit_ids@);
        }
        if self@ == other@ {
            lemma_sorted_unique(self.trust@, other.trust@);
            lemma_sorted_unique(self.distrust@, other.distrust@);
            lemma_sorted_ids_unique(self.all_commit_ids@, other.all_commit_ids@);
        }
    }

    /// A well-formed index is valid: its two sets share no commit.
    pub proof fn lemma_wf_valid(&self)
        requires
            self.wf(),
        ensures
            self@.valid(),
    {
    }

    /// An index with nothing staged.
    pub fn new() -> (index: Index)
        ensures
            index.wf(),
            index@ == IndexView::empty(),
    {
        let trust: Vec<IndexEntry> = Vec::new();
        let distrust: Vec<IndexEntry> = Vec::new();
        let all_commit_ids: Vec<String> = Vec::new();
        proof {
            assert(staged(trust@) =~= Map::empty());
            assert(staged(distrust@) =~= Map::empty());
            assert(id_set(all_commit_ids@) =~= Set::empty());
            assert(id_set(all_commit_ids@) =~= staged(trust@).dom().union(staged(distrust@).dom()));
        }
        Index { trust, distrust, all_commit_ids }
    }

    /// Stages `new_entries` under `trust_status` and leaves `new_entries`
    /// empty. A later record of a commit overrides an earlier one, in the batch
    /// and in the index, and a commit changes sets when it is classified anew.
    pub fn insert(&mut self, new_entries: &mut Vec<IndexEntry>, trust_status: &TrustOrDistrust)
        ensures
            final(self).wf(),
            final(self)@ == old(self)@.with_staged(old(new_entries)@, *trust_status),
            final(new_entries)@.len() == 0,
    {
        proof {
            use_type_invariant(&*self);
            lemma_with_staged_valid(self@, new_entries@, *trust_status);
        }
        let mut taken = Index::new();
        std::mem::swap(self, &mut taken);
        let Index { mut trust, mut distrust, mut all_commit_ids } = taken;
        match trust_status {
            TrustOrDistrust::Trust => {
                stage_into(&mut trust, &mut distrust, &mut all_commit_ids, new_entries);
            },
            TrustOrDistrust::Distrust => {
                stage_into(&mut distrust, &mut trust, &mut all_commit_ids, new_entries);
            },
        }
        *self = Index { trust, distrust, all_commit_ids };
        new_entries.clear();
    }

    /// Whether `commit_id` has been classified, either way.
    pub fn contains_commit_id(&self, commit_id: String) -> (known: bool)
        ensures
            known == self@.known.contains(commit_id@),
    {
        proof {
            use_type_invariant(self);
        }
        has_id(&self.all_commit_ids, &commit_id)
    }

    /// The trusted records as they stand in the index.
    pub closed spec fn trust_list(&self) -> Seq<IndexEntry> {
        self.trust@
    }

    /// The distrusted records as they stand in the index.
    pub closed spec fn distrust_list(&self) -> Seq<IndexEntry> {
        self.distrust@
    }

    /// The trusted records, in rising order of identifier.
    pub fn trust(&self) -> (records: &Vec<IndexEntry>)
        ensures
            records@ == self.trust_list(),
            sorted_by_id(records@),
            staged(records@) == self@.trust,
    {
        proof {
            use_type_invariant(self);
        }
        &self.trust
    }

    /// The distrusted records, in rising order of identifier.
    pub fn distrust(&self) -> (records: &Vec<IndexEntry>)
        ensures
            records@ == self.distrust_list(),
            sorted_by_id(records@),
            staged(records@) == self@.distrust,
    {
        proof {
            use_type_invariant(self);
        }
        &self.distrust
    }

    /// The contents of the index as plain lists, ready to be written out:
    /// the records in rising order of identifier, and the known identifiers.
    pub fn dump(&self) -> (records: IndexRecords)
        ensures
            sorted_by_id(records.trust@),
            sorted_by_id(records.distrust@),
            ids_sorted(records.all_commit_ids@),
            staged(records.trust@) == self@.trust,
            staged(records.distrust@) == self@.distrust,
            id_set(records.all_commit_ids@) == self@.known,
    {
        proof {
            use_type_invariant(self);
        }
        IndexRecords {
            trust: copy_entries(&self.trust),
            distrust: copy_entries(&self.distrust),
            all_commit_ids: copy_ids(&self.all_commit_ids),
        }
    }

    /// The index that stored contents stand for; `None` is a file that is
    /// missing or cannot be read as an index. Never fails: what cannot be
    /// used counts as nothing staged.
    pub fn load(records: Option<IndexRecords>) -> (index: Index)
        ensures
            index.wf(),
            index@ == loaded(records),
    {
        match records {
            Some(r) => {
                let trust = sorted_copy(&r.trust);
                let distrust = sorted_copy(&r.distrust);
                if overlap(&trust, &distrust) {
                    return Index::new();
                }
                let mut all_commit_ids: Vec<String> = Vec::new();
                assert(id_set(all_commit_ids@) =~= Set::empty());
                learn_ids(&mut all_commit_ids, &trust);
                learn_ids(&mut all_commit_ids, &distrust);
                proof {
                    assert(id_set(all_commit_ids@) =~= staged(trust@).dom().union(
                        staged(distrust@).dom(),
                    ));
                }
                Index { trust, distrust, all_commit_ids }
            },
            None => Index::new(),
        }
    }

    /// Every classified identifier, in rising order.
    pub fn known_ids(&self) -> (ids: &Vec<String>)
        ensures
            ids_sorted(ids@),
            id_set(ids@) == self@.known,
    {
        proof {
            use_type_invariant(self);
        }
        &self.all_commit_ids
    }
}

/// Staging keeps an index valid.
pub proof fn lemma_with_staged_valid(index: IndexView, records: Seq<IndexEntry>, status: TrustOrDistrust)
    requires
        index.valid(),
    ensures
        index.with_staged(records, status).valid(),
{
    let after = index.with_staged(records, status);
    assert(after.known =~= after.trust.dom().union(after.distrust.dom()));
}

} // verus!
