use git_crev::entries::IndexEntry;
use git_crev::error::StageError;
use git_crev::index::{Index, TrustOrDistrust};
use git_crev::revision::{
    add_commits, add_revision_range_commits, commits_from_revision_specification, range_extend, range_step,
    reaches_start, resolve_parsed, resolve_revision, revision_mode, stage_resolved, walk_range, CommitInfo,
    ParsedRevision, RevisionMode, Walked, MODE_RANGE, MODE_SINGLE,
};

fn fresh_repository(name: &str) -> git2::Repository {
    let nanos = std::time::SystemTime::now()
        .duration_since(std::time::UNIX_EPOCH)
        .map(|d| d.as_nanos())
        .unwrap_or(0);
    let path = format!("/tmp/git_crev_{}_{}", name, nanos);
    git2::Repository::init(&path).unwrap()
}

fn commit(repository: &git2::Repository, message: &str, seconds: i64) -> String {
    let signature =
        git2::Signature::new("Tester", "tester@example.org", &git2::Time::new(1_600_000_000 + seconds, 0))
            .unwrap();
    let tree_id = repository.treebuilder(None).unwrap().write().unwrap();
    let tree = repository.find_tree(tree_id).unwrap();
    let parents: Vec<git2::Commit> = match repository.head() {
        Ok(head) => vec![head.peel_to_commit().unwrap()],
        Err(_) => Vec::new(),
    };
    let parent_refs: Vec<&git2::Commit> = parents.iter().collect();
    repository
        .commit(Some("HEAD"), &signature, &signature, message, &tree, &parent_refs)
        .unwrap()
        .to_string()
}

fn linear_history(name: &str) -> (git2::Repository, String, String, String) {
    let repository = fresh_repository(name);
    let a = commit(&repository, "first change\n\nwith a body", 1);
    let b = commit(&repository, "second change", 2);
    let c = commit(&repository, "third change", 3);
    (repository, a, b, c)
}

fn pairs(records: &Vec<IndexEntry>) -> Vec<(String, String)> {
    records.iter().map(|e| (e.commit_id.clone(), e.commit_summary.clone())).collect()
}

fn info(id: &str, summary: Option<&str>) -> CommitInfo {
    CommitInfo { id: id.to_string(), summary: summary.map(|s| s.to_string()) }
}

#[test]
fn range_yields_the_commits_after_from_most_recent_first() {
    let (repository, a, b, c) = linear_history("range");
    let commits = resolve_revision(&format!("{}..{}", a, c), &repository).unwrap();
    assert_eq!(
        pairs(&commits),
        vec![(c.clone(), "third change".to_string()), (b.clone(), "second change".to_string())]
    );
}

#[test]
fn single_revision_yields_that_commit() {
    let (repository, a, _b, c) = linear_history("single");
    let commits = resolve_revision(&c, &repository).unwrap();
    assert_eq!(pairs(&commits), vec![(c.clone(), "third change".to_string())]);
    let commits = resolve_revision("HEAD", &repository).unwrap();
    assert_eq!(pairs(&commits), vec![(c.clone(), "third change".to_string())]);
    let commits = resolve_revision(&a, &repository).unwrap();
    assert_eq!(pairs(&commits), vec![(a.clone(), "first change".to_string())]);
}

#[test]
fn range_by_names_relative_to_head() {
    let (repository, _a, b, c) = linear_history("relative");
    let commits = resolve_revision("HEAD~2..HEAD", &repository).unwrap();
    assert_eq!(commits.iter().map(|e| e.commit_id.clone()).collect::<Vec<_>>(), vec![c, b]);
}

#[test]
fn empty_range_yields_nothing() {
    let (repository, _a, _b, c) = linear_history("empty_range");
    let commits = resolve_revision(&format!("{}..{}", c, c), &repository).unwrap();
    assert!(commits.is_empty());
}

#[test]
fn range_whose_start_is_no_ancestor_yields_all_history() {
    let (repository, a, b, c) = linear_history("no_ancestor");
    let commits = resolve_revision(&format!("{}..{}", c, b), &repository).unwrap();
    assert_eq!(commits.iter().map(|e| e.commit_id.clone()).collect::<Vec<_>>(), vec![b, a]);
}

#[test]
fn unparseable_specification_is_rejected_with_its_text() {
    let (repository, _a, _b, _c) = linear_history("invalid");
    match resolve_revision("no-such-revision", &repository) {
        Err(StageError::InvalidRevisionSpec(spec)) => assert_eq!(spec, "no-such-revision"),
        other => panic!("{:?}", other),
    }
    match resolve_revision("a..b..c", &repository) {
        Err(StageError::InvalidRevisionSpec(spec)) => assert_eq!(spec, "a..b..c"),
        other => panic!("{:?}", other),
    }
}

#[test]
fn symmetric_difference_names_no_commits() {
    let (repository, a, _b, c) = linear_history("merge_base");
    let commits = resolve_revision(&format!("{}...{}", a, c), &repository).unwrap();
    assert!(commits.is_empty());
}

#[test]
fn walk_range_leaves_out_the_start() {
    let (repository, a, b, c) = linear_history("walk");
    let commits = walk_range(&repository, &a, &c).unwrap();
    assert_eq!(commits.iter().map(|e| e.commit_id.clone()).collect::<Vec<_>>(), vec![c.clone(), b.clone()]);
    let commits = walk_range(&repository, &b, &c).unwrap();
    assert_eq!(commits.iter().map(|e| e.commit_id.clone()).collect::<Vec<_>>(), vec![c.clone()]);
    let commits = walk_range(&repository, &"0".repeat(40), &c).unwrap();
    assert_eq!(commits.iter().map(|e| e.commit_id.clone()).collect::<Vec<_>>(), vec![c, b, a]);
}

#[test]
fn walk_range_from_an_unknown_commit_fails() {
    let (repository, a, _b, _c) = linear_history("walk_unknown");
    assert!(matches!(walk_range(&repository, &a, &"1".repeat(40)), Err(StageError::Repository(_))));
    assert!(matches!(
        walk_range(&repository, &a, &"not hexadecimal".to_string()),
        Err(StageError::Repository(_))
    ));
}

#[test]
fn parsed_single_revision_yields_its_commit_without_the_repository() {
    let repository = fresh_repository("parsed_single");
    let parsed = ParsedRevision { from: Some(info("abc", Some("summary"))), to: None, mode: MODE_SINGLE };
    let commits = commits_from_revision_specification(parsed, &repository).unwrap();
    assert_eq!(pairs(&commits), vec![("abc".to_string(), "summary".to_string())]);
    let parsed = ParsedRevision { from: Some(info("abc", None)), to: None, mode: MODE_SINGLE };
    let commits = commits_from_revision_specification(parsed, &repository).unwrap();
    assert_eq!(pairs(&commits), vec![("abc".to_string(), String::new())]);
}

#[test]
fn parsed_revision_without_a_commit_is_rejected() {
    let repository = fresh_repository("parsed_none");
    let parsed = ParsedRevision { from: None, to: None, mode: MODE_SINGLE };
    assert!(matches!(commits_from_revision_specification(parsed, &repository), Err(StageError::NotACommit)));
    let parsed = ParsedRevision { from: Some(info("abc", None)), to: None, mode: MODE_RANGE };
    assert!(matches!(commits_from_revision_specification(parsed, &repository), Err(StageError::NotACommit)));
    let parsed = ParsedRevision { from: None, to: Some(info("abc", None)), mode: MODE_RANGE };
    assert!(matches!(commits_from_revision_specification(parsed, &repository), Err(StageError::NotACommit)));
}

#[test]
fn parsed_revision_of_another_kind_names_nothing() {
    let repository = fresh_repository("parsed_other");
    for mode in [0u32, 3, 4, 6, 7, u32::MAX] {
        let parsed =
            ParsedRevision { from: Some(info("abc", None)), to: Some(info("def", None)), mode };
        assert!(commits_from_revision_specification(parsed, &repository).unwrap().is_empty());
    }
}

#[test]
fn modes_are_told_by_their_flags() {
    assert_eq!(revision_mode(1), RevisionMode::Single);
    assert_eq!(revision_mode(2), RevisionMode::Range);
    assert_eq!(revision_mode(0), RevisionMode::Other);
    assert_eq!(revision_mode(3), RevisionMode::Other);
    assert_eq!(revision_mode(4), RevisionMode::Other);
    assert_eq!(revision_mode(6), RevisionMode::Other);
    assert_eq!(MODE_SINGLE, git2::RevparseMode::SINGLE.bits());
    assert_eq!(MODE_RANGE, git2::RevparseMode::RANGE.bits());
}

#[test]
fn commit_without_summary_is_staged_with_an_empty_one() {
    let entry = info("abc", None).into_entry();
    assert_eq!((entry.commit_id.as_str(), entry.commit_summary.as_str()), ("abc", ""));
    let entry = info("abc", Some("text")).into_entry();
    assert_eq!((entry.commit_id.as_str(), entry.commit_summary.as_str()), ("abc", "text"));
}

#[test]
fn the_walk_stops_at_the_start_only() {
    assert!(reaches_start(&"abc".to_string(), &"abc".to_string()));
    assert!(!reaches_start(&"abc".to_string(), &"abd".to_string()));
    assert!(!reaches_start(&"abc".to_string(), &"ab".to_string()));
}

#[test]
fn add_commits_stages_them() {
    let mut index = Index::new();
    let commits = vec![
        IndexEntry::new("b".to_string(), "2".to_string()),
        IndexEntry::new("a".to_string(), "1".to_string()),
    ];
    add_commits(&commits, &TrustOrDistrust::Distrust, &mut index);
    assert_eq!(commits.len(), 2);
    assert_eq!(pairs(index.distrust()), vec![("a".to_string(), "1".to_string()), ("b".to_string(), "2".to_string())]);
    assert!(index.trust().is_empty());
}

#[test]
fn adding_a_range_stages_its_commits() {
    let (repository, a, b, c) = linear_history("add_range");
    let mut index = Index::new();
    add_revision_range_commits(&format!("{}..{}", a, c), &repository, &mut index, &TrustOrDistrust::Trust)
        .unwrap();
    assert!(index.contains_commit_id(b.clone()));
    assert!(index.contains_commit_id(c.clone()));
    assert!(!index.contains_commit_id(a.clone()));
    assert_eq!(index.trust().len(), 2);
    add_revision_range_commits(&b, &repository, &mut index, &TrustOrDistrust::Distrust).unwrap();
    assert_eq!(pairs(index.distrust()), vec![(b.clone(), "second change".to_string())]);
    assert_eq!(pairs(index.trust()), vec![(c.clone(), "third change".to_string())]);
}

#[test]
fn a_failed_addition_leaves_the_index_as_it_was() {
    let (repository, _a, _b, c) = linear_history("add_invalid");
    let mut index = Index::new();
    add_revision_range_commits(&c, &repository, &mut index, &TrustOrDistrust::Trust).unwrap();
    let outcome =
        add_revision_range_commits("nothing-like-this", &repository, &mut index, &TrustOrDistrust::Distrust);
    assert!(matches!(outcome, Err(StageError::InvalidRevisionSpec(spec)) if spec == "nothing-like-this"));
    assert_eq!(index.trust().len(), 1);
    assert!(index.distrust().is_empty());
}

#[test]
fn a_step_of_the_walk_is_a_commit_the_start_or_the_end() {
    let from = "aaa".to_string();
    assert!(matches!(range_step(None, &from), Ok(Walked::End)));
    assert!(matches!(range_step(Some(Ok("aaa".to_string())), &from), Ok(Walked::Start)));
    assert!(matches!(range_step(Some(Ok("aab".to_string())), &from), Ok(Walked::Commit(id)) if id == "aab"));
    assert!(matches!(
        range_step(Some(Err(git2::Error::from_str("object lost"))), &from),
        Err(StageError::Repository(text)) if text.contains("object lost")
    ));
}

#[test]
fn a_visited_commit_is_recorded_at_the_end_under_the_identifier_of_the_walk() {
    let mut found = vec![IndexEntry::new("first".to_string(), "1".to_string())];
    range_extend(&mut found, "abc".to_string(), Ok(info("other", Some("words")))).unwrap();
    assert_eq!(
        pairs(&found),
        vec![("first".to_string(), "1".to_string()), ("abc".to_string(), "words".to_string())]
    );
    range_extend(&mut found, "def".to_string(), Ok(info("def", None))).unwrap();
    assert_eq!(found.len(), 3);
    assert_eq!((found[2].commit_id.as_str(), found[2].commit_summary.as_str()), ("def", ""));
}

#[test]
fn a_failed_lookup_fails_the_walk_and_leaves_the_list() {
    let mut found = vec![IndexEntry::new("first".to_string(), "1".to_string())];
    let lost = git2::Error::from_str("object lost");
    let words = lost.to_string();
    let done = range_extend(&mut found, "abc".to_string(), Err(lost));
    assert!(matches!(done, Err(StageError::Repository(text)) if text == words));
    assert_eq!(pairs(&found), vec![("first".to_string(), "1".to_string())]);
}

fn walk_over(visited: &[&str], from: &str) -> Vec<String> {
    let from = from.to_string();
    let mut found: Vec<IndexEntry> = Vec::new();
    let mut walk = visited.iter();
    loop {
        let step = walk.next().map(|id| Ok(id.to_string()));
        match range_step(step, &from).unwrap() {
            Walked::Commit(id) => {
                let summary = format!("summary of {}", id);
                range_extend(&mut found, id.clone(), Ok(info(&id, Some(&summary)))).unwrap();
            }
            Walked::Start | Walked::End => break,
        }
    }
    for entry in &found {
        assert_eq!(entry.commit_summary, format!("summary of {}", entry.commit_id));
    }
    found.into_iter().map(|e| e.commit_id).collect()
}

#[test]
fn a_walk_yields_what_it_visits_before_the_start() {
    assert_eq!(walk_over(&["c", "b", "a"], "a"), vec!["c".to_string(), "b".to_string()]);
    assert_eq!(walk_over(&["c", "b", "a"], "b"), vec!["c".to_string()]);
    assert_eq!(walk_over(&["c", "b", "a"], "c"), Vec::<String>::new());
    assert_eq!(walk_over(&["c", "b", "a", "b"], "b"), vec!["c".to_string()]);
}

#[test]
fn a_walk_that_never_meets_the_start_yields_all_it_visits() {
    assert_eq!(walk_over(&["c", "b", "a"], "z"), vec!["c".to_string(), "b".to_string(), "a".to_string()]);
    assert_eq!(walk_over(&[], "z"), Vec::<String>::new());
}

#[test]
fn a_failure_of_the_repository_is_passed_on_in_its_words() {
    let lost = git2::Error::from_str("object lost");
    let words = lost.to_string();
    assert!(matches!(
        range_step(Some(Err(lost)), &"a".to_string()),
        Err(StageError::Repository(text)) if text == words
    ));
}

#[test]
fn resolved_commits_are_staged_and_a_failure_is_passed_on() {
    let mut index = Index::new();
    let commits = vec![IndexEntry::new("b".to_string(), "2".to_string())];
    stage_resolved(Ok(commits), &mut index, &TrustOrDistrust::Trust).unwrap();
    assert_eq!(pairs(index.trust()), vec![("b".to_string(), "2".to_string())]);
    let done = stage_resolved(
        Err(StageError::InvalidRevisionSpec("x..y".to_string())),
        &mut index,
        &TrustOrDistrust::Distrust,
    );
    assert!(matches!(done, Err(StageError::InvalidRevisionSpec(spec)) if spec == "x..y"));
    assert_eq!(pairs(index.trust()), vec![("b".to_string(), "2".to_string())]);
    assert!(index.distrust().is_empty());
}

#[test]
fn a_specification_that_was_not_parsed_is_rejected_with_its_text() {
    let repository = fresh_repository("not_parsed");
    assert!(matches!(
        resolve_parsed("what..ever", None, &repository),
        Err(StageError::InvalidRevisionSpec(spec)) if spec == "what..ever"
    ));
    let parsed = ParsedRevision { from: Some(info("abc", Some("s"))), to: None, mode: MODE_SINGLE };
    let commits = resolve_parsed("abc", Some(parsed), &repository).unwrap();
    assert_eq!(pairs(&commits), vec![("abc".to_string(), "s".to_string())]);
    let parsed = ParsedRevision { from: None, to: None, mode: MODE_SINGLE };
    assert!(matches!(
        resolve_parsed("abc", Some(parsed), &repository),
        Err(StageError::InvalidRevisionSpec(spec)) if spec == "abc"
    ));
    let parsed = ParsedRevision { from: Some(info("abc", None)), to: None, mode: MODE_RANGE };
    assert!(matches!(
        resolve_parsed("abc..", Some(parsed), &repository),
        Err(StageError::InvalidRevisionSpec(spec)) if spec == "abc.."
    ));
    let parsed = ParsedRevision { from: Some(info("abc", None)), to: None, mode: 4 };
    assert!(resolve_parsed("abc", Some(parsed), &repository).unwrap().is_empty());
}
