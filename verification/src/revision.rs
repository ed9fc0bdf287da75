//! Resolving a revision specification to the commits it names.

use vstd::prelude::*;
use crate::entries::{IndexEntry, copy_entries, summary_or_empty};
use crate::error::StageError;
use crate::index::{Index, TrustOrDistrust};

verus! {

/// `git2::Repository`, a handle on a repository on disk. Nothing inside it is
/// seen here.
#[verifier::external_type_specification]
#[verifier::external_body]
pub struct ExRepository(git2::Repository);

/// `git2::Revspec`, a revision specification as the repository parsed it.
/// Nothing inside it is seen here.
#[verifier::external_type_specification]
#[verifier::external_body]
pub struct ExRevspec<'repo>(git2::Revspec<'repo>);

/// `git2::Revwalk`, a walk over the commit graph. Nothing inside it is seen
/// here.
#[verifier::external_type_specification]
#[verifier::external_body]
pub struct ExRevwalk<'repo>(git2::Revwalk<'repo>);

/// `git2::Error`, a failure that the repository reported. Nothing inside it
/// is seen here.
#[verifier::external_type_specification]
#[verifier::external_body]
pub struct ExGitError(git2::Error);

/// `git2::Oid`, the identifier of an object. It stands in no signature
/// here, but `git2::Revwalk` is an iterator over it, and with the walk declared
/// the verifier asks for the type of its items. Nothing inside it is seen here.
#[verifier::external_type_specification]
#[verifier::external_body]
pub struct ExOid(git2::Oid);

/// What is read of a commit: its identifier in hexadecimal, and the first
/// paragraph of its message where it has one.
#[derive(Debug)]
pub struct CommitInfo {
    pub id: String,
    pub summary: Option<String>,
}

impl CommitInfo {
    /// The record that stages this commit: a commit without a summary is
    /// recorded with an empty one.
    pub fn into_entry(self) -> (entry: IndexEntry)
        ensures
            entry.commit_id == self.id,
            entry.commit_summary@ == summary_or_empty(self.summary),
    {
        let summary = match self.summary {
            Some(s) => s,
            None => String::new(),
        };
        IndexEntry::new(self.id, summary)
    }
}

/// `git2::Repository::revparse`: parses `spec` against the repository.
/// Nothing is claimed of the outcome, which depends on what the repository
/// holds.
#[verifier::external_body]
fn revparse<'r>(repository: &'r git2::Repository, spec: &str) -> (parsed: Result<
    git2::Revspec<'r>,
    git2::Error,
>) {
    repository.revparse(spec)
}

/// `git2::Revspec::from`, with `git2::Object::as_commit`, `git2::Commit::id`
/// and `git2::Commit::summary`: the commit at the start of the specification,
/// if there is one and it is a commit. Nothing is claimed of the outcome.
#[verifier::external_body]
fn revspec_from(parsed: &git2::Revspec) -> (commit: Option<CommitInfo>) {
    parsed.from().and_then(|object| object.as_commit()).map(
        |c| CommitInfo {
            id: c.id().to_string(),
            summary: c.summary().ok().flatten().map(|s| s.to_string()),
        },
    )
}

/// `git2::Revspec::to`, with `git2::Object::as_commit`, `git2::Commit::id`
/// and `git2::Commit::summary`: the commit at the end of the specification,
/// if there is one and it is a commit. Nothing is claimed of the outcome.
#[verifier::external_body]
fn revspec_to(parsed: &git2::Revspec) -> (commit: Option<CommitInfo>) {
    parsed.to().and_then(|object| object.as_commit()).map(
        |c| CommitInfo {
            id: c.id().to_string(),
            summary: c.summary().ok().flatten().map(|s| s.to_string()),
        },
    )
}

/// `git2::Revspec::mode`, as the bits of its flags. Nothing is claimed of
/// the outcome.
#[verifier::external_body]
fn revspec_mode(parsed: &git2::Revspec) -> (bits: u32) {
    parsed.mode().bits()
}

/// `git2::Repository::revwalk`: a walk over the commit graph with no
/// starting point yet. Nothing is claimed of the outcome.
#[verifier::external_body]
pub(crate) fn new_revwalk<'r>(repository: &'r git2::Repository) -> (walk: Result<git2::Revwalk<'r>, git2::Error>) {
    repository.revwalk()
}

/// `git2::Revwalk::push`, the identifier read by `git2::Oid::from_str`:
/// makes the commit `id` a starting point of the walk. Nothing is claimed of
/// the outcome.
#[verifier::external_body]
fn revwalk_push(walk: &mut git2::Revwalk, id: &str) -> (pushed: Result<(), git2::Error>) {
    walk.push(git2::Oid::from_str(id)?)
}

/// `git2::Revwalk::push_head`: makes the head of the repository a starting
/// point of the walk. Nothing is claimed of the outcome.
#[verifier::external_body]
pub(crate) fn revwalk_push_head(walk: &mut git2::Revwalk) -> (pushed: Result<(), git2::Error>) {
    walk.push_head()
}

/// `Iterator::next` of `git2::Revwalk`, the identifier written in
/// hexadecimal: the next commit of the walk, a failure, or `None` at its end.
/// Nothing is claimed of the outcome.
#[verifier::external_body]
pub(crate) fn revwalk_next(walk: &mut git2::Revwalk) -> (visited: Option<Result<String, git2::Error>>) {
    walk.next().map(|step| step.map(|oid| oid.to_string()))
}

/// `git2::Repository::find_commit`, the identifier read by
/// `git2::Oid::from_str`, with `git2::Commit::id` and `git2::Commit::summary`:
/// looks the commit `id` up. Nothing is claimed of the outcome.
#[verifier::external_body]
pub(crate) fn find_commit(repository: &git2::Repository, id: &str) -> (commit: Result<CommitInfo, git2::Error>) {
    let c = repository.find_commit(git2::Oid::from_str(id)?)?;
    Ok(CommitInfo {
        id: c.id().to_string(),
        summary: c.summary().ok().flatten().map(|s| s.to_string()),
    })
}

/// The text that `Display` of `git2::Error` gives for `error`: its message,
/// with its class and its code where it has them.
pub uninterp spec fn error_message(error: git2::Error) -> Seq<char>;

/// `Display` of `git2::Error`: the failure in words. The text goes by the
/// name `error_message`: it is claimed to depend on the error alone, and
/// nothing else is claimed of it.
#[verifier::external_body]
fn error_text(error: &git2::Error) -> (text: String)
    ensures
        text@ == error_message(*error),
{
    error.to_string()
}

/// What a revision specification names.
#[derive(Debug, Clone, Copy, PartialEq, Eq, Structural)]
pub enum RevisionMode {
    /// A single commit.
    Single,
    /// The commits of a range `from..to`.
    Range,
    /// Anything else, which names no commits here.
    Other,
}

/// Flag of a specification that names a single object.
pub const MODE_SINGLE: u32 = 1;

/// Flag of a specification that names a range.
pub const MODE_RANGE: u32 = 2;

/// What the flags of a parsed specification say: a single commit where they
/// are exactly the flag for one, a range where they are exactly the flag for
/// a range.
pub open spec fn mode_of(bits: u32) -> RevisionMode {
    if bits == MODE_SINGLE {
        RevisionMode::Single
    } else if bits == MODE_RANGE {
        RevisionMode::Range
    } else {
        RevisionMode::Other
    }
}

/// What the flags of a parsed specification say.
pub fn revision_mode(bits: u32) -> (mode: RevisionMode)
    ensures
        mode == mode_of(bits),
{
    if bits == MODE_SINGLE {
        RevisionMode::Single
    } else if bits == MODE_RANGE {
        RevisionMode::Range
    } else {
        RevisionMode::Other
    }
}

/// A revision specification once parsed: the commits at its ends, where
/// they are commits, and the flags that say what it names.
#[derive(Debug)]
pub struct ParsedRevision {
    pub from: Option<CommitInfo>,
    pub to: Option<CommitInfo>,
    pub mode: u32,
}

/// Reads a parsed specification into plain values.
fn read_revspec(parsed: &git2::Revspec) -> (plain: ParsedRevision) {
    ParsedRevision { from: revspec_from(parsed), to: revspec_to(parsed), mode: revspec_mode(parsed) }
}

/// The failure that the repository reported, as a failure of staging: it
/// carries the words of the repository.
pub(crate) fn repository_failure(error: &git2::Error) -> (failure: StageError)
    ensures
        failure matches StageError::Repository(text) && text@ == error_message(*error),
{
    StageError::Repository(error_text(error))
}

/// Whether a walk that has come to the commit `visited` has reached the
/// start of the range, which ends the walk and is itself left out.
pub fn reaches_start(visited: &String, from_id: &String) -> (reached: bool)
    ensures
        reached == (visited@ == from_id@),
{
    *visited == *from_id
}

/// What one step of a walk over a range has come to.
#[derive(Debug)]
pub enum Walked {
    /// A commit of the range, by its identifier.
    Commit(String),
    /// The start of the range, which ends the walk and is itself left out.
    Start,
    /// The end of history.
    End,
}

/// What a walk over a range has come to when the repository yielded
/// `yielded`: the end of history where it yielded nothing, the start of the
/// range where it yielded `from`, else a commit of the range.
pub open spec fn walked_to(yielded: Option<String>, from: Seq<char>) -> Walked {
    match yielded {
        None => Walked::End,
        Some(id) => if id@ == from {
            Walked::Start
        } else {
            Walked::Commit(id)
        },
    }
}

/// What the walk over a range has come to, given what the repository
/// yielded for the step. A failure of the repository is a failure of the
/// walk, in the repository's words.
pub fn range_step(step: Option<Result<String, git2::Error>>, from_id: &String) -> (walked: Result<
    Walked,
    StageError,
>)
    ensures
        match step {
            None => walked matches Ok(w) && w == walked_to(None, from_id@),
            Some(Ok(id)) => walked matches Ok(w) && w == walked_to(Some(id), from_id@),
            Some(Err(e)) => walked matches Err(StageError::Repository(text)) && text@
                == error_message(e),
        },
{
    match step {
        None => Ok(Walked::End),
        Some(Ok(id)) => if reaches_start(&id, from_id) {
            Ok(Walked::Start)
        } else {
            Ok(Walked::Commit(id))
        },
        Some(Err(e)) => Err(repository_failure(&e)),
    }
}

/// Whether `after` is `before` with one record more at its end: that of the
/// commit `visited`, with the given summary or an empty one.
pub open spec fn extends(
    before: Seq<IndexEntry>,
    after: Seq<IndexEntry>,
    visited: String,
    summary: Option<String>,
) -> bool {
    &&& after.len() == before.len() + 1
    &&& after.drop_last() == before
    &&& after.last().commit_id == visited
    &&& after.last().commit_summary@ == summary_or_empty(summary)
}

/// Takes the commit `visited` into the list of a walk, given what the
/// repository yielded when it was looked up: the commit is recorded at the end
/// of the list, under the identifier by which the walk came to it, with its
/// summary or an empty one. A failure of the repository is a failure of the
/// walk, in the repository's words, and leaves the list as it was.
pub fn range_extend(
    found: &mut Vec<IndexEntry>,
    visited: String,
    looked_up: Result<CommitInfo, git2::Error>,
) -> (done: Result<(), StageError>)
    ensures
        match looked_up {
            Ok(commit) => done is Ok && extends(old(found)@, final(found)@, visited, commit.summary),
            Err(e) => {
                &&& done matches Err(StageError::Repository(text)) && text@ == error_message(e)
                &&& final(found)@ == old(found)@
            },
        },
{
    match looked_up {
        Ok(commit) => {
            let ghost before = found@;
            found.push(CommitInfo { id: visited, summary: commit.summary }.into_entry());
            assert(found@.drop_last() =~= before);
            Ok(())
        },
        Err(e) => Err(repository_failure(&e)),
    }
}

/// The identifiers that a walk over a range yields: those visited before the
/// first `from`, in the order of the walk; all of them where `from` is never
/// visited.
pub open spec fn range_of(visited: Seq<Seq<char>>, from: Seq<char>) -> Seq<Seq<char>>
    decreases visited.len(),
{
    if visited.len() == 0 || visited.first() == from {
        Seq::empty()
    } else {
        seq![visited.first()] + range_of(visited.drop_first(), from)
    }
}

/// The identifiers of the commits of a walk, as texts.
pub open spec fn ids_of(visited: Seq<String>) -> Seq<Seq<char>> {
    Seq::new(visited.len(), |i: int| visited[i]@)
}

/// Whether a walk over a range that has collected `found` and goes on to
/// visit the commits `visited`, whose summaries are `summaries`, can end with
/// the list `result`. Each visit is judged as `range_step` judges it: the end
/// of history and the start of the range end the walk with the list at hand,
/// and a commit is taken into the list as `range_extend` takes it.
pub open spec fn walk_ends_with(
    found: Seq<IndexEntry>,
    visited: Seq<String>,
    summaries: Seq<Option<String>>,
    from: Seq<char>,
    result: Seq<IndexEntry>,
) -> bool
    decreases visited.len(),
{
    if visited.len() == 0 {
        walked_to(None, from) is End && result == found
    } else {
        match walked_to(Some(visited.first()), from) {
            Walked::Commit(id) => summaries.len() > 0 && exists|next: Seq<IndexEntry>|
                #[trigger] extends(found, next, id, summaries.first()) && walk_ends_with(
                    next,
                    visited.drop_first(),
                    summaries.drop_first(),
                    from,
                    result,
                ),
            _ => result == found,
        }
    }
}

/// What a range holds: a part of the walk from its beginning, without the
/// start of the range; where the walk goes on, it goes on with the start of the
/// range. So a walk that never visits the start yields every commit, and a
/// walk that visits it first yields none.
pub proof fn lemma_range_of(visited: Seq<Seq<char>>, from: Seq<char>)
    ensures
        range_of(visited, from).len() <= visited.len(),
        range_of(visited, from) == visited.take(range_of(visited, from).len() as int),
        forall|i: int| 0 <= i < range_of(visited, from).len() ==> visited[i] != from,
        range_of(visited, from).len() < visited.len() ==> visited[range_of(visited, from).len() as int]
            == from,
        (forall|i: int| 0 <= i < visited.len() ==> visited[i] != from) ==> range_of(visited, from)
            == visited,
        visited.len() > 0 && visited.first() == from ==> range_of(visited, from).len() == 0,
    decreases visited.len(),
{
    if visited.len() == 0 || visited.first() == from {
        assert(range_of(visited, from) =~= visited.take(0));
    } else {
        let rest = visited.drop_first();
        lemma_range_of(rest, from);
        let n = range_of(rest, from).len() as int;
        assert(range_of(visited, from) =~= visited.take(n + 1)) by {
            assert(range_of(rest, from) == rest.take(n));
            assert forall|i: int| 0 <= i < n + 1 implies range_of(visited, from)[i] == visited[i] by {
                if i > 0 {
                    assert(range_of(visited, from)[i] == range_of(rest, from)[i - 1]);
                    assert(rest.take(n)[i - 1] == rest[i - 1]);
                }
            }
        }
        assert forall|i: int| 0 <= i < n + 1 implies visited[i] != from by {
            if i > 0 {
                assert(rest[i - 1] == visited[i]);
            }
        }
        if n + 1 < visited.len() {
            assert(rest[n] == visited[n + 1]);
        }
        if forall|i: int| 0 <= i < visited.len() ==> visited[i] != from {
            assert(n == rest.len());
            assert(visited.take(visited.len() as int) =~= visited);
        }
    }
}

/// A walk that starts with the list `found` ends with `found` followed by
/// the records of the commits visited before the start of the range.
proof fn lemma_walk_from(
    found: Seq<IndexEntry>,
    visited: Seq<String>,
    summaries: Seq<Option<String>>,
    from: Seq<char>,
    result: Seq<IndexEntry>,
)
    requires
        walk_ends_with(found, visited, summaries, from, result),
    ensures
        result.len() == found.len() + range_of(ids_of(visited), from).len(),
        range_of(ids_of(visited), from).len() <= summaries.len(),
        forall|i: int| 0 <= i < found.len() ==> result[i] == found[i],
        forall|i: int|
            0 <= i < range_of(ids_of(visited), from).len() ==> {
                &&& (#[trigger] result[found.len() + i]).commit_id == visited[i]
                &&& result[found.len() + i].commit_summary@ == summary_or_empty(summaries[i])
            },
    decreases visited.len(),
{
    let ids = ids_of(visited);
    lemma_range_of(ids, from);
    if visited.len() == 0 {
    } else if visited.first()@ == from {
        assert(ids.first() == from);
    } else {
        assert(ids.first() != from);
        let rest = visited.drop_first();
        let next = choose|next: Seq<IndexEntry>|
            #[trigger] extends(found, next, visited.first(), summaries.first()) && walk_ends_with(
                next,
                rest,
                summaries.drop_first(),
                from,
                result,
            );
        lemma_walk_from(next, rest, summaries.drop_first(), from, result);
        lemma_range_of(ids_of(rest), from);
        assert(ids.drop_first() =~= ids_of(rest));
        let r = range_of(ids_of(rest), from);
        assert(range_of(ids, from) =~= seq![ids.first()] + r);
        assert forall|i: int| 0 <= i < found.len() implies result[i] == found[i] by {
            assert(next.drop_last()[i] == next[i]);
        }
        assert forall|i: int| 0 <= i < range_of(ids, from).len() implies {
            &&& (#[trigger] result[found.len() + i]).commit_id == visited[i]
            &&& result[found.len() + i].commit_summary@ == summary_or_empty(summaries[i])
        } by {
            if i == 0 {
                assert(result[found.len() as int] == next[found.len() as int]);
                assert(next.last() == next[found.len() as int]);
            } else {
                assert(result[next.len() + (i - 1)].commit_id == rest[i - 1]);
                assert(rest[i - 1] == visited[i]);
                assert(summaries.drop_first()[i - 1] == summaries[i]);
            }
        }
    }
}

/// Whatever commits a walk visits, judging each visit with `range_step` and
/// taking each commit in with `range_extend` gives the range: the records of
/// the commits visited before the start of the range, each under the
/// identifier of its visit and with its summary, in the order of the walk, and
/// nothing else.
pub proof fn lemma_walk_gives_range(
    visited: Seq<String>,
    summaries: Seq<Option<String>>,
    from: Seq<char>,
    result: Seq<IndexEntry>,
)
    requires
        walk_ends_with(Seq::empty(), visited, summaries, from, result),
    ensures
        result.len() == range_of(ids_of(visited), from).len(),
        result.len() <= visited.len(),
        result.len() <= summaries.len(),
        forall|i: int|
            0 <= i < result.len() ==> {
                &&& (#[trigger] result[i]).commit_id == visited[i]
                &&& result[i].commit_id@ == range_of(ids_of(visited), from)[i]
                &&& result[i].commit_summary@ == summary_or_empty(summaries[i])
            },
{
    lemma_walk_from(Seq::empty(), visited, summaries, from, result);
    lemma_range_of(ids_of(visited), from);
    assert forall|i: int| 0 <= i < result.len() implies {
        &&& (#[trigger] result[i]).commit_id == visited[i]
        &&& result[i].commit_id@ == range_of(ids_of(visited), from)[i]
        &&& result[i].commit_summary@ == summary_or_empty(summaries[i])
    } by {
        assert(result[0 + i].commit_id == visited[i]);
        assert(ids_of(visited).take(result.len() as int)[i] == ids_of(visited)[i]);
    }
}

/// Walks the ancestry of the commit `to_id`, most recent first, and collects
/// every commit it visits until it comes to `from_id`, which is left out. A
/// walk that never comes to `from_id` ends with history and yields every
/// commit visited.
pub fn walk_range(repository: &git2::Repository, from_id: &String, to_id: &String) -> (commits:
    Result<Vec<IndexEntry>, StageError>)
    ensures
        match commits {
            Ok(found) => forall|i: int|
                0 <= i < found@.len() ==> (#[trigger] found@[i]).commit_id@ != from_id@,
            Err(failure) => failure is Repository,
        },
{
    let mut walk = match new_revwalk(repository) {
        Ok(walk) => walk,
        Err(e) => {
            return Err(repository_failure(&e));
        },
    };
    match revwalk_push(&mut walk, to_id.as_str()) {
        Ok(_) => {},
        Err(e) => {
            return Err(repository_failure(&e));
        },
    }
    let mut found: Vec<IndexEntry> = Vec::new();
    while found.len() < usize::MAX
        invariant
            forall|i: int| 0 <= i < found@.len() ==> (#[trigger] found@[i]).commit_id@ != from_id@,
        decreases usize::MAX - found.len(),
    {
        let visited = match range_step(revwalk_next(&mut walk), from_id) {
            Ok(Walked::Commit(id)) => id,
            Ok(Walked::Start) | Ok(Walked::End) => {
                return Ok(found);
            },
            Err(failure) => {
                return Err(failure);
            },
        };
        let looked_up = find_commit(repository, visited.as_str());
        let ghost before = found@;
        match range_extend(&mut found, visited, looked_up) {
            Ok(_) => {
                assert forall|i: int| 0 <= i < found@.len() implies (#[trigger] found@[i]).commit_id@
                    != from_id@ by {
                    if i < before.len() {
                        assert(found@.drop_last()[i] == found@[i]);
                    }
                }
            },
            Err(failure) => {
                return Err(failure);
            },
        }
    }
    Err(StageError::Repository(String::from_str("history holds more commits than can be listed")))
}

/// Whether `commits` is an outcome of resolving the parsed specification.
/// Without a commit at its start the specification is refused. A single
/// revision yields exactly its one commit. A range without a commit at its end
/// is refused; otherwise it yields commits none of which is its start, or the
/// failure that the repository reported. Anything else yields no commits.
pub open spec fn named_by(parsed: ParsedRevision, commits: Result<Vec<IndexEntry>, StageError>) -> bool {
    match parsed.from {
        None => commits matches Err(failure) && failure is NotACommit,
        Some(from) => match mode_of(parsed.mode) {
            RevisionMode::Single => {
                &&& commits matches Ok(found)
                &&& found@.len() == 1
                &&& found@[0].commit_id == from.id
                &&& found@[0].commit_summary@ == summary_or_empty(from.summary)
            },
            RevisionMode::Range => match parsed.to {
                None => commits matches Err(failure) && failure is NotACommit,
                Some(_) => match commits {
                    Ok(found) => forall|i: int|
                        0 <= i < found@.len() ==> (#[trigger] found@[i]).commit_id@ != from.id@,
                    Err(failure) => failure is Repository,
                },
            },
            RevisionMode::Other => commits matches Ok(found) && found@.len() == 0,
        },
    }
}

/// The commits that a parsed specification names. A single revision names
/// its one commit. A range `from..to` names the commits walked from `to` back
/// to `from`, most recent first, `from` left out. Anything else names none.
pub fn commits_from_revision_specification(
    parsed: ParsedRevision,
    repository: &git2::Repository,
) -> (commits: Result<Vec<IndexEntry>, StageError>)
    ensures
        named_by(parsed, commits),
{
    let ParsedRevision { from, to, mode } = parsed;
    let from_commit = match from {
        Some(commit) => commit,
        None => {
            return Err(StageError::NotACommit);
        },
    };
    match revision_mode(mode) {
        RevisionMode::Single => {
            let mut found: Vec<IndexEntry> = Vec::new();
            found.push(from_commit.into_entry());
            Ok(found)
        },
        RevisionMode::Range => {
            let to_commit = match to {
                Some(commit) => commit,
                None => {
                    return Err(StageError::NotACommit);
                },
            };
            walk_range(repository, &from_commit.id, &to_commit.id)
        },
        RevisionMode::Other => Ok(Vec::new()),
    }
}

/// Stages `commits` in `index` under `trust_status`.
pub fn add_commits(commits: &Vec<IndexEntry>, trust_status: &TrustOrDistrust, index: &mut Index)
    ensures
        final(index)@ == old(index)@.with_staged(commits@, *trust_status),
{
    let mut new_entries = copy_entries(commits);
    index.insert(&mut new_entries, trust_status);
}

/// Whether a parsed specification names commits at the ends that count: at
/// its start, and for a range at its end too.
pub open spec fn names_commits(parsed: ParsedRevision) -> bool {
    &&& parsed.from is Some
    &&& mode_of(parsed.mode) == RevisionMode::Range ==> parsed.to is Some
}

/// The commits that `revision_specification` names, given what parsing it
/// against the repository yielded: `None` where it could not be parsed. A
/// specification that could not be parsed, or that names no commit at an end,
/// is rejected with the specification itself.
pub fn resolve_parsed(
    revision_specification: &str,
    parsed: Option<ParsedRevision>,
    repository: &git2::Repository,
) -> (commits: Result<Vec<IndexEntry>, StageError>)
    ensures
        match parsed {
            Some(plain) if names_commits(plain) => named_by(plain, commits),
            _ => commits matches Err(StageError::InvalidRevisionSpec(spec)) && spec@
                == revision_specification@,
        },
{
    let found = match parsed {
        None => Err(StageError::NotACommit),
        Some(plain) => commits_from_revision_specification(plain, repository),
    };
    match found {
        Err(StageError::NotACommit) => Err(
            StageError::InvalidRevisionSpec(String::from_str(revision_specification)),
        ),
        other => other,
    }
}

/// The commits that `revision_specification` names in `repository`, in the
/// order of the walk: most recent first. A specification that cannot be
/// resolved to commits is rejected with the specification itself; the only
/// other failure is one of the repository during the walk.
pub fn resolve_revision(revision_specification: &str, repository: &git2::Repository) -> (commits:
    Result<Vec<IndexEntry>, StageError>)
    ensures
        commits matches Err(failure) ==> {
            ||| failure matches StageError::InvalidRevisionSpec(spec) && spec@
                == revision_specification@
            ||| failure is Repository
        },
{
    let parsed = match revparse(repository, revision_specification) {
        Ok(parsed) => Some(read_revspec(&parsed)),
        Err(_) => None,
    };
    resolve_parsed(revision_specification, parsed, repository)
}

/// Stages the commits that a specification was resolved to in `index` under
/// `trust_status`. A specification that was not resolved leaves the index as
/// it was and its failure is passed on.
pub fn stage_resolved(
    resolved: Result<Vec<IndexEntry>, StageError>,
    index: &mut Index,
    trust_status: &TrustOrDistrust,
) -> (done: Result<(), StageError>)
    ensures
        match resolved {
            Ok(commits) => done is Ok && final(index)@ == old(index)@.with_staged(
                commits@,
                *trust_status,
            ),
            Err(failure) => done == Err::<(), StageError>(failure) && final(index)@ == old(index)@,
        },
{
    match resolved {
        Ok(commits) => {
            add_commits(&commits, trust_status, index);
            Ok(())
        },
        Err(failure) => Err(failure),
    }
}

/// Stages the commits that `revision_specification` names in `repository`
/// under `trust_status`. On any failure the index is left as it was.
pub fn add_revision_range_commits(
    revision_specification: &str,
    repository: &git2::Repository,
    index: &mut Index,
    trust_status: &TrustOrDistrust,
) -> (done: Result<(), StageError>)
    ensures
        match done {
            Ok(_) => exists|records: Seq<IndexEntry>|
                final(index)@ == old(index)@.with_staged(records, *trust_status),
            Err(failure) => {
                &&& final(index)@ == old(index)@
                &&& {
                    ||| failure matches StageError::InvalidRevisionSpec(spec) && spec@
                        == revision_specification@
                    ||| failure is Repository
                }
            },
        },
{
    let resolved = resolve_revision(revision_specification, repository);
    stage_resolved(resolved, index, trust_status)
}

} // verus!
