//! Rendering of staged entries for the status listing.

use vstd::prelude::*;
use crate::entries::IndexEntry;
use crate::index::Index;

verus! {

/// Number of characters of a commit identifier shown in a listing.
pub const SHORT_ID_LENGTH: usize = 8;

/// Largest number of characters of a summary shown in a listing.
pub const SUMMARY_LENGTH: usize = 100;

/// The first `n` characters of `s`, or all of `s` where it has fewer.
pub open spec fn prefix_chars(s: Seq<char>, n: nat) -> Seq<char> {
    if s.len() <= n {
        s
    } else {
        s.take(n as int)
    }
}

/// A summary as it is listed: whole where it has at most `SUMMARY_LENGTH`
/// characters, else its first `SUMMARY_LENGTH` characters and an ellipsis.
pub open spec fn shortened_summary(s: Seq<char>) -> Seq<char> {
    if s.len() > SUMMARY_LENGTH {
        s.take(SUMMARY_LENGTH as int) + "..."@
    } else {
        s
    }
}

/// The line that lists one record: a tab, the short identifier, two spaces,
/// the shortened summary.
pub open spec fn listed(entry: IndexEntry) -> Seq<char> {
    "\t"@ + prefix_chars(entry.commit_id@, SHORT_ID_LENGTH as nat) + "  "@ + shortened_summary(
        entry.commit_summary@,
    )
}

/// The first `n` characters of `s`.
pub fn take_chars(s: &str, n: usize) -> (out: String)
    ensures
        out@ == prefix_chars(s@, n as nat),
{
    let len: usize = s.unicode_len();
    if len <= n {
        String::from_str(s)
    } else {
        assert(s@.subrange(0, n as int) =~= s@.take(n as int));
        String::from_str(s.substring_char(0, n))
    }
}

/// The identifier as it is listed: its first `SHORT_ID_LENGTH` characters.
pub fn short_id(commit_id: &str) -> (out: String)
    ensures
        out@ == prefix_chars(commit_id@, SHORT_ID_LENGTH as nat),
{
    take_chars(commit_id, SHORT_ID_LENGTH)
}

/// The summary as it is listed.
pub fn short_summary(summary: &str) -> (out: String)
    ensures
        out@ == shortened_summary(summary@),
        summary@.len() <= SUMMARY_LENGTH ==> out@ == summary@,
        summary@.len() > SUMMARY_LENGTH ==> out@.len() == SUMMARY_LENGTH + 3,
{
    let len: usize = summary.unicode_len();
    proof {
        reveal_strlit("...");
    }
    if len > SUMMARY_LENGTH {
        let mut out = take_chars(summary, SUMMARY_LENGTH);
        out.append("...");
        out
    } else {
        String::from_str(summary)
    }
}

/// The line that lists `entry`.
pub fn entry_line(entry: &IndexEntry) -> (line: String)
    ensures
        line@ == listed(*entry),
{
    let mut line = String::from_str("\t");
    let id = short_id(entry.commit_id.as_str());
    line.append(id.as_str());
    line.append("  ");
    let summary = short_summary(entry.commit_summary.as_str());
    line.append(summary.as_str());
    line
}

/// The listing of `entries`: the line of each record in turn, each closed
/// by a line feed.
pub open spec fn listing(entries: Seq<IndexEntry>) -> Seq<char>
    decreases entries.len(),
{
    if entries.len() == 0 {
        Seq::empty()
    } else {
        listing(entries.drop_last()) + listed(entries.last()) + "\n"@
    }
}

/// The listing of `entries`, in their order.
pub fn commit_listing(entries: &Vec<IndexEntry>) -> (text: String)
    ensures
        text@ == listing(entries@),
{
    let mut text = String::new();
    let n: usize = entries.len();
    let mut j: usize = 0;
    assert(entries@.take(0) =~= Seq::<IndexEntry>::empty());
    while j < n
        invariant
            n == entries.len(),
            j <= n,
            text@ == listing(entries@.take(j as int)),
        decreases n - j,
    {
        proof {
            let next = entries@.take(j as int + 1);
            assert(next.drop_last() =~= entries@.take(j as int));
            assert(next.last() == entries@[j as int]);
        }
        let line = entry_line(&entries[j]);
        text.append(line.as_str());
        text.append("\n");
        j = j + 1;
    }
    assert(entries@.take(n as int) =~= entries@);
    text
}

/// The status report for the given trusted and distrusted records: a
/// heading, then each list under a heading of its own.
pub open spec fn report(trusted: Seq<IndexEntry>, distrusted: Seq<IndexEntry>) -> Seq<char> {
    "Commits staged as part of an ongoing review.\n\t(use \"git crev commit\" to commit the review)\n\n"@
        + "Trusted:\n\n"@ + listing(trusted) + "\n\n"@ + "Distrusted:\n\n"@ + listing(distrusted)
        + "\n"@
}

/// The status report of `index`: both lists in rising order of identifier.
pub fn status_report(index: &Index) -> (text: String)
    ensures
        text@ == report(index.trust_list(), index.distrust_list()),
{
    let mut text = String::from_str(
        "Commits staged as part of an ongoing review.\n\t(use \"git crev commit\" to commit the review)\n\n",
    );
    text.append("Trusted:\n\n");
    let part = commit_listing(index.trust());
    text.append(part.as_str());
    text.append("\n\n");
    text.append("Distrusted:\n\n");
    let part = commit_listing(index.distrust());
    text.append(part.as_str());
    text.append("\n");
    text
}

} // verus!
