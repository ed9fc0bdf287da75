//! What holds of staging, whatever is staged and in whatever order.

use vstd::prelude::*;
use crate::entries::{IndexEntry, holds_id, sorted_by_id, staged, lemma_staged_dom};
use crate::index::{IndexView, IndexRecords, TrustOrDistrust, loaded, lemma_with_staged_valid};
use crate::text::lemma_lex_lt_irreflexive;

verus! {

/// One call of `insert`: the records and their classification.
pub struct Batch {
    pub records: Seq<IndexEntry>,
    pub status: TrustOrDistrust,
}

/// The index that results from `start` when the batches are staged one after
/// the other.
pub open spec fn staged_in_turn(start: IndexView, batches: Seq<Batch>) -> IndexView
    decreases batches.len(),
{
    if batches.len() == 0 {
        start
    } else {
        staged_in_turn(start, batches.drop_last()).with_staged(
            batches.last().records,
            batches.last().status,
        )
    }
}

/// The set that `status` names, and the other one.
pub open spec fn set_of(index: IndexView, status: TrustOrDistrust) -> Map<Seq<char>, Seq<char>> {
    match status {
        TrustOrDistrust::Trust => index.trust,
        TrustOrDistrust::Distrust => index.distrust,
    }
}

pub open spec fn opposite(status: TrustOrDistrust) -> TrustOrDistrust {
    match status {
        TrustOrDistrust::Trust => TrustOrDistrust::Distrust,
        TrustOrDistrust::Distrust => TrustOrDistrust::Trust,
    }
}

/// Starting from an empty index, after each of any sequence of `insert`
/// calls no commit is both trusted and distrusted, and the known identifiers
/// are the staged ones.
pub proof fn lemma_always_disjoint(batches: Seq<Batch>, calls: int)
    requires
        0 <= calls <= batches.len(),
    ensures
        staged_in_turn(IndexView::empty(), batches.take(calls)).valid(),
        staged_in_turn(IndexView::empty(), batches.take(calls)).trust.dom().disjoint(
            staged_in_turn(IndexView::empty(), batches.take(calls)).distrust.dom(),
        ),
    decreases calls,
{
    let done = batches.take(calls);
    if calls == 0 {
        assert(IndexView::empty().known =~= IndexView::empty().trust.dom().union(
            IndexView::empty().distrust.dom(),
        ));
    } else {
        lemma_always_disjoint(batches, calls - 1);
        assert(done.drop_last() =~= batches.take(calls - 1));
        lemma_with_staged_valid(
            staged_in_turn(IndexView::empty(), batches.take(calls - 1)),
            done.last().records,
            done.last().status,
        );
    }
}

/// A commit staged under one classification stands in that set, with the
/// summary of its last record in the batch at hand where it occurs last, and
/// in no case in the other set, whatever the index held before.
pub proof fn lemma_last_classification_wins(
    index: IndexView,
    records: Seq<IndexEntry>,
    status: TrustOrDistrust,
    id: Seq<char>,
)
    requires
        holds_id(records, id),
    ensures
        set_of(index.with_staged(records, status), status).dom().contains(id),
        set_of(index.with_staged(records, status), status)[id] == staged(records)[id],
        !set_of(index.with_staged(records, status), opposite(status)).dom().contains(id),
        index.with_staged(records, status).known.contains(id),
{
    lemma_staged_dom(records);
    assert(staged(records).dom().contains(id));
}

/// A commit that a batch does not name stays where it was, with the summary
/// it had.
pub proof fn lemma_others_untouched(
    index: IndexView,
    records: Seq<IndexEntry>,
    status: TrustOrDistrust,
    id: Seq<char>,
)
    requires
        !holds_id(records, id),
    ensures
        index.with_staged(records, status).trust.dom().contains(id) == index.trust.dom().contains(
            id,
        ),
        index.with_staged(records, status).distrust.dom().contains(id)
            == index.distrust.dom().contains(id),
        index.trust.dom().contains(id) ==> index.with_staged(records, status).trust[id]
            == index.trust[id],
        index.distrust.dom().contains(id) ==> index.with_staged(records, status).distrust[id]
            == index.distrust[id],
        index.with_staged(records, status).known.contains(id) == index.known.contains(id),
{
    lemma_staged_dom(records);
    assert(!staged(records).dom().contains(id));
}

/// Staging a commit as trusted and later as distrusted leaves it distrusted
/// and not trusted; the other way round it ends trusted and not distrusted.
pub proof fn lemma_override(
    index: IndexView,
    first: IndexEntry,
    second: IndexEntry,
    status: TrustOrDistrust,
)
    requires
        first.commit_id@ == second.commit_id@,
    ensures
        ({
            let after = index.with_staged(seq![first], status).with_staged(
                seq![second],
                opposite(status),
            );
            &&& set_of(after, opposite(status)).dom().contains(first.commit_id@)
            &&& set_of(after, opposite(status))[first.commit_id@] == second.commit_summary@
            &&& !set_of(after, status).dom().contains(first.commit_id@)
        }),
{
    let between = index.with_staged(seq![first], status);
    lemma_single(second);
    assert(seq![second][0].commit_id@ == second.commit_id@);
    lemma_last_classification_wins(between, seq![second], opposite(status), first.commit_id@);
}

/// What one record stages: its summary under its identifier.
pub proof fn lemma_single(entry: IndexEntry)
    ensures
        staged(seq![entry]) == Map::<Seq<char>, Seq<char>>::empty().insert(
            entry.commit_id@,
            entry.commit_summary@,
        ),
{
    let one = seq![entry];
    assert(one.drop_last() =~= Seq::<IndexEntry>::empty());
    assert(one.last() == entry);
    assert(staged(one.drop_last()) =~= Map::<Seq<char>, Seq<char>>::empty());
}

/// Staging a commit twice under the same classification, with whatever
/// summaries, leaves one record of it: the set names the same commits as after
/// the first call, now with the second summary, and the other set and the
/// known identifiers are as after the first call.
pub proof fn lemma_same_commit_twice(
    index: IndexView,
    first: IndexEntry,
    second: IndexEntry,
    status: TrustOrDistrust,
)
    requires
        first.commit_id@ == second.commit_id@,
    ensures
        ({
            let once = index.with_staged(seq![first], status);
            let twice = once.with_staged(seq![second], status);
            &&& set_of(twice, status).dom() == set_of(once, status).dom()
            &&& set_of(twice, status) == set_of(once, status).insert(
                first.commit_id@,
                second.commit_summary@,
            )
            &&& set_of(twice, opposite(status)) == set_of(once, opposite(status))
            &&& twice.known == once.known
        }),
{
    let once = index.with_staged(seq![first], status);
    let twice = once.with_staged(seq![second], status);
    lemma_single(first);
    lemma_single(second);
    assert(set_of(twice, status) =~= set_of(once, status).insert(
        first.commit_id@,
        second.commit_summary@,
    ));
    assert(set_of(twice, status).dom() =~= set_of(once, status).dom());
    assert(set_of(twice, opposite(status)) =~= set_of(once, opposite(status)));
    assert(twice.known =~= once.known);
}

/// A list in order holds each commit once: two places with the same
/// identifier are the same place.
pub proof fn lemma_one_record_per_commit(records: Seq<IndexEntry>, i: int, j: int)
    requires
        sorted_by_id(records),
        0 <= i < records.len(),
        0 <= j < records.len(),
        records[i].commit_id@ == records[j].commit_id@,
    ensures
        i == j,
{
    lemma_lex_lt_irreflexive(records[i].commit_id@);
    if i < j {
        assert(crate::text::lex_lt(records[i].commit_id@, records[j].commit_id@));
    } else if j < i {
        assert(crate::text::lex_lt(records[j].commit_id@, records[i].commit_id@));
    }
}

/// After a batch has been staged, an identifier is known exactly if it was
/// known before or the batch names it; on an empty index, exactly if the batch
/// names it.
pub proof fn lemma_membership_after_batch(
    index: IndexView,
    records: Seq<IndexEntry>,
    status: TrustOrDistrust,
    id: Seq<char>,
)
    ensures
        index.with_staged(records, status).known.contains(id) == (index.known.contains(id)
            || holds_id(records, id)),
        IndexView::empty().with_staged(records, status).known.contains(id) == holds_id(
            records,
            id,
        ),
{
    lemma_staged_dom(records);
    assert(staged(records).dom().contains(id) == holds_id(records, id));
}

/// Writing an index out and reading it back gives the same index: contents
/// that stage what a valid index holds are read as that index.
pub proof fn lemma_load_after_dump(index: IndexView, records: IndexRecords)
    requires
        index.valid(),
        staged(records.trust@) == index.trust,
        staged(records.distrust@) == index.distrust,
    ensures
        loaded(Some(records)) == index,
{
}

/// Contents that are missing are read as the empty index.
pub proof fn lemma_load_nothing()
    ensures
        loaded(None) == IndexView::empty(),
{
}

} // verus!
