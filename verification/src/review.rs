//! Reviewing history commit by commit: what a line typed at the prompt asks
//! for, and the steps of the walk through unclassified commits.

use vstd::prelude::*;
use crate::entries::{IndexEntry, summary_or_empty};
use crate::error::StageError;
use crate::revision::{CommitInfo, error_message, find_commit, new_revwalk, repository_failure, revwalk_next, revwalk_push_head};
use crate::index::{Index, IndexView, TrustOrDistrust};
use crate::laws::lemma_single;
use crate::text::{chars_of, trim_range, trim_text, trimmed};

verus! {

/// What was typed at the prompt for one commit.
#[derive(Debug, Default, Clone, Copy, PartialEq, Eq, Structural)]
pub struct ReviewCommands {
    pub skip: bool,
    pub trust: bool,
    pub distrust: bool,
}

/// What a line typed at the prompt amounts to.
#[derive(Debug, Clone, Copy, PartialEq, Eq, Structural)]
pub enum Reply {
    /// Nothing but white space: the prompt is shown again.
    Blank,
    /// Not one of the three commands.
    Invalid,
    /// One of `-s`, `-t`, `-d`.
    Commands(ReviewCommands),
}

/// The commands that a line stands for: white space at its ends aside, it
/// has to read exactly `-s`, `-t` or `-d`.
pub open spec fn reply_of(line: Seq<char>) -> Reply {
    let word = trimmed(line);
    if word.len() == 0 {
        Reply::Blank
    } else if word.len() == 2 && word[0] == '-' && word[1] == 's' {
        Reply::Commands(ReviewCommands { skip: true, trust: false, distrust: false })
    } else if word.len() == 2 && word[0] == '-' && word[1] == 't' {
        Reply::Commands(ReviewCommands { skip: false, trust: true, distrust: false })
    } else if word.len() == 2 && word[0] == '-' && word[1] == 'd' {
        Reply::Commands(ReviewCommands { skip: false, trust: false, distrust: true })
    } else {
        Reply::Invalid
    }
}

/// Reads a line typed at the prompt.
pub fn parse_live_commands(line: &str) -> (reply: Reply)
    ensures
        reply == reply_of(line@),
{
    let chars = chars_of(line);
    let (a, b) = trim_range(&chars, 0, chars.len());
    proof {
        assert(chars@.subrange(0, chars.len() as int) =~= chars@);
        let word = chars@.subrange(a as int, b as int);
        assert(word.len() == b - a);
        if b - a == 2 {
            assert(word[0] == chars@[a as int]);
            assert(word[1] == chars@[a + 1]);
        }
    }
    if b == a {
        Reply::Blank
    } else if b - a == 2 && chars[a] == '-' && chars[a + 1] == 's' {
        Reply::Commands(ReviewCommands { skip: true, trust: false, distrust: false })
    } else if b - a == 2 && chars[a] == '-' && chars[a + 1] == 't' {
        Reply::Commands(ReviewCommands { skip: false, trust: true, distrust: false })
    } else if b - a == 2 && chars[a] == '-' && chars[a + 1] == 'd' {
        Reply::Commands(ReviewCommands { skip: false, trust: false, distrust: true })
    } else {
        Reply::Invalid
    }
}

/// The prompt shown for each commit.
pub fn prompt_text() -> (text: String)
    ensures
        text@ == "Review (skip:-s; trust:-t; distrust:-d): "@,
{
    String::from_str("Review (skip:-s; trust:-t; distrust:-d): ")
}

/// The message shown for a line that is no command: it repeats the line,
/// white space at its ends aside.
pub fn invalid_message(line: &str) -> (text: String)
    ensures
        text@ == "Invalid commands: "@ + trimmed(line@),
{
    let mut text = String::from_str("Invalid commands: ");
    let word = trim_text(line);
    text.append(word.as_str());
    text
}

impl ReviewCommands {
    /// The classification that the commands give the commit at hand, if
    /// any: none where the commit is skipped, else trust before distrust.
    pub open spec fn classification(self) -> Option<TrustOrDistrust> {
        if self.skip {
            None
        } else if self.trust {
            Some(TrustOrDistrust::Trust)
        } else if self.distrust {
            Some(TrustOrDistrust::Distrust)
        } else {
            None
        }
    }

    /// The classification that the commands give the commit at hand.
    pub fn decision(&self) -> (status: Option<TrustOrDistrust>)
        ensures
            status == self.classification(),
    {
        if self.skip {
            None
        } else if self.trust {
            Some(TrustOrDistrust::Trust)
        } else if self.distrust {
            Some(TrustOrDistrust::Distrust)
        } else {
            None
        }
    }
}

/// Where the walk through history stands.
#[derive(Debug)]
pub enum ReviewState {
    /// The next commit of the walk is awaited.
    Walking,
    /// The diff of the commit with this identifier is being shown.
    Presenting(String),
    /// A line is awaited for the commit with this identifier.
    Prompting(String),
    /// The commit with this identifier has been classified, and its summary
    /// is being looked up.
    Recording(String, TrustOrDistrust),
    /// The index is being written out after a decision.
    Saving,
    /// History is exhausted.
    Finished,
}

/// What happened outside since the last step.
#[derive(Debug)]
pub enum ReviewEvent {
    /// The walk has reached the commit with this identifier.
    Visited(String),
    /// The walk has no more commits.
    Exhausted,
    /// The diff has been shown and its display has ended.
    DiffShown,
    /// A line was typed at the prompt.
    Line(String),
    /// The commit has been looked up: its summary, if it has one.
    Summary(Option<String>),
    /// The index has been written out.
    Saved,
}

/// What is to be done outside before the next step.
#[derive(Debug)]
pub enum ReviewAction {
    /// Take the next commit of the walk.
    Advance,
    /// Show the diff of the commit with this identifier, and wait for it.
    ShowDiff(String),
    /// Show the prompt and read a line.
    Prompt,
    /// Tell the user that this line is no command, then prompt again.
    Complain(String),
    /// Look up the summary of the commit with this identifier.
    Lookup(String),
    /// Write the index out.
    Save,
    /// Stop: there is nothing left to review.
    Stop,
}

/// The action that a state waits on: what is asked again where an event
/// comes that the state has no use for.
pub open spec fn awaited(state: ReviewState) -> ReviewAction {
    match state {
        ReviewState::Walking => ReviewAction::Advance,
        ReviewState::Presenting(id) => ReviewAction::ShowDiff(id),
        ReviewState::Prompting(_) => ReviewAction::Prompt,
        ReviewState::Recording(id, _) => ReviewAction::Lookup(id),
        ReviewState::Saving => ReviewAction::Save,
        ReviewState::Finished => ReviewAction::Stop,
    }
}

/// The index after the one commit `id` has been staged under `status` with
/// the given summary.
pub open spec fn with_commit(
    index: IndexView,
    id: Seq<char>,
    summary: Seq<char>,
    status: TrustOrDistrust,
) -> IndexView {
    match status {
        TrustOrDistrust::Trust => IndexView {
            trust: index.trust.insert(id, summary),
            distrust: index.distrust.remove(id),
            known: index.known.insert(id),
        },
        TrustOrDistrust::Distrust => IndexView {
            trust: index.trust.remove(id),
            distrust: index.distrust.insert(id, summary),
            known: index.known.insert(id),
        },
    }
}

/// Staging one commit is staging a batch that holds its record alone.
pub proof fn lemma_with_commit(index: IndexView, entry: IndexEntry, status: TrustOrDistrust)
    ensures
        index.with_staged(seq![entry], status) == with_commit(
            index,
            entry.commit_id@,
            entry.commit_summary@,
            status,
        ),
{
    lemma_single(entry);
    let batch = index.with_staged(seq![entry], status);
    let one = with_commit(index, entry.commit_id@, entry.commit_summary@, status);
    assert(batch.trust =~= one.trust);
    assert(batch.distrust =~= one.distrust);
    assert(batch.known =~= one.known);
}

/// The outcome of one step: the state to go on from, what to do outside,
/// and the index as it then is.
pub struct Step {
    pub state: ReviewState,
    pub action: ReviewAction,
    pub index: IndexView,
}

/// One step of the review. A commit that the index knows is passed over
/// without a prompt; any other has its diff shown, then the prompt is repeated
/// until a line is a command; trust and distrust are staged as soon as the
/// summary of the commit has been looked up, and the index is written out
/// before the walk goes on.
pub open spec fn step_of(state: ReviewState, index: IndexView, event: ReviewEvent) -> Step {
    match (state, event) {
        (ReviewState::Walking, ReviewEvent::Visited(id)) => if index.known.contains(id@) {
            Step { state: ReviewState::Walking, action: ReviewAction::Advance, index }
        } else {
            Step { state: ReviewState::Presenting(id), action: ReviewAction::ShowDiff(id), index }
        },
        (ReviewState::Walking, ReviewEvent::Exhausted) => Step {
            state: ReviewState::Finished,
            action: ReviewAction::Stop,
            index,
        },
        (ReviewState::Presenting(id), ReviewEvent::DiffShown) => Step {
            state: ReviewState::Prompting(id),
            action: ReviewAction::Prompt,
            index,
        },
        (ReviewState::Prompting(id), ReviewEvent::Line(line)) => match reply_of(line@) {
            Reply::Blank => Step {
                state: ReviewState::Prompting(id),
                action: ReviewAction::Prompt,
                index,
            },
            Reply::Invalid => Step {
                state: ReviewState::Prompting(id),
                action: ReviewAction::Complain(line),
                index,
            },
            Reply::Commands(commands) => match commands.classification() {
                Some(status) => Step {
                    state: ReviewState::Recording(id, status),
                    action: ReviewAction::Lookup(id),
                    index,
                },
                None => Step { state: ReviewState::Walking, action: ReviewAction::Advance, index },
            },
        },
        (ReviewState::Recording(id, status), ReviewEvent::Summary(summary)) => Step {
            state: ReviewState::Saving,
            action: ReviewAction::Save,
            index: with_commit(index, id@, summary_or_empty(summary), status),
        },
        (ReviewState::Saving, ReviewEvent::Saved) => Step {
            state: ReviewState::Walking,
            action: ReviewAction::Advance,
            index,
        },
        (state, _) => Step { state, action: awaited(state), index },
    }
}

/// Takes one step of the review: from the state and what happened outside to
/// the next state and what to do next. The index changes only when the
/// summary of a classified commit arrives.
pub fn review_step(state: ReviewState, index: &mut Index, event: ReviewEvent) -> (next: (
    ReviewState,
    ReviewAction,
))
    ensures
        next.0 == step_of(state, old(index)@, event).state,
        next.1 == step_of(state, old(index)@, event).action,
        final(index)@ == step_of(state, old(index)@, event).index,
{
    match state {
        ReviewState::Walking => match event {
            ReviewEvent::Visited(id) => {
                if index.contains_commit_id(id.clone()) {
                    (ReviewState::Walking, ReviewAction::Advance)
                } else {
                    let shown = id.clone();
                    (ReviewState::Presenting(id), ReviewAction::ShowDiff(shown))
                }
            },
            ReviewEvent::Exhausted => (ReviewState::Finished, ReviewAction::Stop),
            _ => (ReviewState::Walking, ReviewAction::Advance),
        },
        ReviewState::Presenting(id) => match event {
            ReviewEvent::DiffShown => (ReviewState::Prompting(id), ReviewAction::Prompt),
            _ => {
                let shown = id.clone();
                (ReviewState::Presenting(id), ReviewAction::ShowDiff(shown))
            },
        },
        ReviewState::Prompting(id) => match event {
            ReviewEvent::Line(line) => match parse_live_commands(line.as_str()) {
                Reply::Blank => (ReviewState::Prompting(id), ReviewAction::Prompt),
                Reply::Invalid => (ReviewState::Prompting(id), ReviewAction::Complain(line)),
                Reply::Commands(commands) => match commands.decision() {
                    Some(status) => {
                        let sought = id.clone();
                        (ReviewState::Recording(id, status), ReviewAction::Lookup(sought))
                    },
                    None => (ReviewState::Walking, ReviewAction::Advance),
                },
            },
            _ => (ReviewState::Prompting(id), ReviewAction::Prompt),
        },
        ReviewState::Recording(id, status) => match event {
            ReviewEvent::Summary(summary) => {
                let text = match summary {
                    Some(s) => s,
                    None => String::new(),
                };
                let entry = IndexEntry::new(id, text);
                proof {
                    lemma_with_commit(index@, entry, status);
                }
                let mut single: Vec<IndexEntry> = Vec::new();
                single.push(entry);
                assert(single@ =~= seq![entry]);
                index.insert(&mut single, &status);
                (ReviewState::Saving, ReviewAction::Save)
            },
            _ => {
                let sought = id.clone();
                (ReviewState::Recording(id, status), ReviewAction::Lookup(sought))
            },
        },
        ReviewState::Saving => match event {
            ReviewEvent::Saved => (ReviewState::Walking, ReviewAction::Advance),
            _ => (ReviewState::Saving, ReviewAction::Save),
        },
        ReviewState::Finished => (ReviewState::Finished, ReviewAction::Stop),
    }
}

/// A commit classified at the prompt is known from then on, so the walk
/// never asks about it again.
pub proof fn lemma_decided_commit_is_known(
    index: IndexView,
    id: Seq<char>,
    summary: Seq<char>,
    status: TrustOrDistrust,
)
    ensures
        with_commit(index, id, summary, status).known.contains(id),
{
}

/// Staging one commit keeps an index valid.
pub proof fn lemma_with_commit_valid(
    index: IndexView,
    id: Seq<char>,
    summary: Seq<char>,
    status: TrustOrDistrust,
)
    requires
        index.valid(),
    ensures
        with_commit(index, id, summary, status).valid(),
{
    let after = with_commit(index, id, summary, status);
    assert(after.known =~= after.trust.dom().union(after.distrust.dom()));
}

/// A walk over the history of `repository` that starts at its head.
pub fn walk_from_head<'r>(repository: &'r git2::Repository) -> (walk: Result<
    git2::Revwalk<'r>,
    StageError,
>)
    ensures
        walk matches Err(failure) ==> failure is Repository,
{
    let mut walk = match new_revwalk(repository) {
        Ok(walk) => walk,
        Err(e) => {
            return Err(repository_failure(&e));
        },
    };
    match revwalk_push_head(&mut walk) {
        Ok(_) => Ok(walk),
        Err(e) => Err(repository_failure(&e)),
    }
}

/// The event that a step of the walk amounts to, given what the repository
/// yielded for it: the visit of the commit it yielded, or the end of history
/// where it yielded nothing. A failure of the repository is a failure of the
/// review.
pub fn visit_event(step: Option<Result<String, git2::Error>>) -> (event: Result<
    ReviewEvent,
    StageError,
>)
    ensures
        match step {
            None => event matches Ok(e) && e == ReviewEvent::Exhausted,
            Some(Ok(id)) => event matches Ok(e) && e == ReviewEvent::Visited(id),
            Some(Err(e)) => event matches Err(StageError::Repository(text)) && text@
                == error_message(e),
        },
{
    match step {
        Some(Ok(id)) => Ok(ReviewEvent::Visited(id)),
        Some(Err(e)) => Err(repository_failure(&e)),
        None => Ok(ReviewEvent::Exhausted),
    }
}

/// What the walk comes to next: a commit, or the end of history.
pub fn next_visited(walk: &mut git2::Revwalk) -> (event: Result<ReviewEvent, StageError>)
    ensures
        match event {
            Ok(e) => e is Visited || e is Exhausted,
            Err(failure) => failure is Repository,
        },
{
    visit_event(revwalk_next(walk))
}

/// The event that looking a commit up amounts to, given what the
/// repository yielded: the summary of the commit, if it has one. A failure of
/// the repository is a failure of the review, in the repository's words.
pub fn summary_event(looked_up: Result<CommitInfo, git2::Error>) -> (event: Result<
    ReviewEvent,
    StageError,
>)
    ensures
        match looked_up {
            Ok(commit) => event matches Ok(e) && e == ReviewEvent::Summary(commit.summary),
            Err(e) => event matches Err(StageError::Repository(text)) && text@ == error_message(e),
        },
{
    match looked_up {
        Ok(commit) => Ok(ReviewEvent::Summary(commit.summary)),
        Err(e) => Err(repository_failure(&e)),
    }
}

/// Looks the commit `id` up for its summary.
pub fn lookup_summary(repository: &git2::Repository, id: &String) -> (event: Result<
    ReviewEvent,
    StageError,
>)
    ensures
        match event {
            Ok(e) => e is Summary,
            Err(failure) => failure is Repository,
        },
{
    summary_event(find_commit(repository, id.as_str()))
}

} // verus!
