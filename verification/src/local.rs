//! The repository at hand and the place of the staging state inside its
//! working directory.

use vstd::prelude::*;
use std::path::PathBuf;
use crate::error::StageError;
use crate::text::{chars_of, has_line, holds_line, is_line, is_space, trim_end, trim_start, trimmed};

verus! {

/// `std::path::PathBuf`, a path of the file system. Nothing inside it is
/// seen here.
#[verifier::external_type_specification]
#[verifier::external_body]
pub struct ExPathBuf(std::path::PathBuf);

/// The Git repository and where its staging state lives.
pub struct Local {
    /// The directory of the staging state, inside the working directory.
    pub root_path: PathBuf,
    /// The file that holds the index.
    pub index_path: PathBuf,
    pub repository: git2::Repository,
}

/// `git2::Repository::open_from_env`: opens the repository that the
/// environment and the current directory point to. Nothing is claimed of the
/// outcome.
#[verifier::external_body]
fn open_from_env() -> (opened: Result<git2::Repository, git2::Error>) {
    git2::Repository::open_from_env()
}

/// `git2::Repository::workdir`: the working directory of the repository,
/// `None` for a bare one. Nothing is claimed of the outcome.
#[verifier::external_body]
fn workdir(repository: &git2::Repository) -> (directory: Option<PathBuf>) {
    repository.workdir().map(|path| path.to_path_buf())
}

/// `git2::Repository::path`: the directory that holds the repository
/// itself. Nothing is claimed of the outcome.
#[verifier::external_body]
fn git_directory(repository: &git2::Repository) -> (directory: PathBuf) {
    repository.path().to_path_buf()
}

/// The path that `std::path::Path::join` gives for `base` and `name`: `base`
/// with `name` adjoined.
pub uninterp spec fn path_join(base: PathBuf, name: Seq<char>) -> PathBuf;

/// `std::path::Path::join`: `base` with `name` adjoined. The result goes by
/// the name `path_join`: it is claimed to depend on the two arguments alone,
/// and nothing else is claimed of it.
#[verifier::external_body]
fn join(base: &PathBuf, name: &str) -> (joined: PathBuf)
    ensures
        joined == path_join(*base, name@),
{
    base.join(name)
}

impl Local {
    /// Places the staging state of `repository`, whose working directory is
    /// given: in `.crev` inside that directory, with the index in the file
    /// `index` there. A repository without a working directory is refused.
    pub fn at(repository: git2::Repository, working_directory: Option<PathBuf>) -> (local: Result<
        Local,
        StageError,
    >)
        ensures
            match working_directory {
                Some(directory) => {
                    &&& local matches Ok(found)
                    &&& found.root_path == path_join(directory, ".crev"@)
                    &&& found.index_path == path_join(found.root_path, "index"@)
                    &&& found.repository == repository
                },
                None => local matches Err(failure) && failure is NoWorkingDirectory,
            },
    {
        match working_directory {
            Some(directory) => {
                let root_path = join(&directory, ".crev");
                let index_path = join(&root_path, "index");
                Ok(Local { root_path, index_path, repository })
            },
            None => Err(StageError::NoWorkingDirectory),
        }
    }

    /// Opens the repository around the current directory and places the
    /// staging state in `.crev` inside its working directory, with the index in
    /// the file `index` there. Fails outside a repository and in a repository
    /// without a working directory.
    pub fn new() -> (local: Result<Local, StageError>)
        ensures
            match local {
                Ok(found) => {
                    &&& exists|directory: PathBuf|
                        found.root_path == #[trigger] path_join(directory, ".crev"@)
                    &&& found.index_path == path_join(found.root_path, "index"@)
                },
                Err(failure) => failure is NotARepository || failure is NoWorkingDirectory,
            },
    {
        let repository = match open_from_env() {
            Ok(repository) => repository,
            Err(_) => {
                return Err(StageError::NotARepository);
            },
        };
        let working_directory = workdir(&repository);
        Local::at(repository, working_directory)
    }

    /// The file in which the repository lists what it leaves untracked on
    /// this machine only: `exclude` in the directory `info` of the directory
    /// that holds the repository itself.
    pub fn exclude_path(&self) -> (path: PathBuf)
        ensures
            exists|directory: PathBuf|
                path == path_join(#[trigger] path_join(directory, "info"@), "exclude"@),
    {
        let directory = git_directory(&self.repository);
        let info = join(&directory, "info");
        join(&info, "exclude")
    }
}

/// The text that makes a file of the given contents list the staging
/// directory when it is appended: the line `.crev`, behind a line feed of its
/// own where the contents stop in the middle of a line.
pub open spec fn exclusion_for(contents: Seq<char>) -> Seq<char> {
    if contents.len() == 0 || contents.last() == '\n' {
        ".crev\n"@
    } else {
        "\n.crev\n"@
    }
}

/// What has to be appended to the exclude file so that it lists the staging
/// directory: nothing where one of its lines reads `.crev`, white space at the
/// ends of the line aside, else that line, on a line of its own.
pub fn exclude_addition(contents: &str) -> (addition: Option<String>)
    ensures
        addition is None <==> has_line(contents@, ".crev"@),
        addition matches Some(text) ==> text@ == exclusion_for(contents@),
        addition matches Some(text) ==> has_line(contents@ + text@, ".crev"@),
{
    if holds_line(contents, ".crev") {
        None
    } else {
        proof {
            lemma_exclude_once(contents@);
        }
        let chars = chars_of(contents);
        if chars.len() == 0 || chars[chars.len() - 1] == '\n' {
            Some(String::from_str(".crev\n"))
        } else {
            Some(String::from_str("\n.crev\n"))
        }
    }
}

/// Once the text has been appended a line of the file reads `.crev`, so that
/// nothing is appended again: the exclusion is written at most once.
pub proof fn lemma_exclude_once(contents: Seq<char>)
    ensures
        has_line(contents + exclusion_for(contents), ".crev"@),
{
    reveal_strlit(".crev\n");
    reveal_strlit("\n.crev\n");
    reveal_strlit(".crev");
    let text = contents + exclusion_for(contents);
    let from: int = if contents.len() == 0 || contents.last() == '\n' {
        contents.len() as int
    } else {
        contents.len() as int + 1
    };
    let to = from + 5;
    assert(is_line(text, from, to));
    let line = text.subrange(from, to);
    assert(line =~= ".crev"@);
    assert(!is_space(line.first()));
    assert(!is_space(line.last()));
    assert(trim_start(line) == line);
    assert(trim_end(line) == line);
}

/// Where the line `.crev` starts once the text has been appended to the
/// contents.
pub open spec fn exclusion_start(contents: Seq<char>) -> int {
    if contents.len() == 0 || contents.last() == '\n' {
        contents.len() as int
    } else {
        contents.len() as int + 1
    }
}

/// Appending the text to contents that list no staging directory leaves the
/// contents as they were and gives a file in which exactly one line reads
/// `.crev`: the line that was added.
pub proof fn lemma_exclude_single(contents: Seq<char>)
    requires
        !has_line(contents, ".crev"@),
    ensures
        (contents + exclusion_for(contents)).take(contents.len() as int) == contents,
        is_line(
            contents + exclusion_for(contents),
            exclusion_start(contents),
            exclusion_start(contents) + 5,
        ),
        forall|from: int, to: int|
            #[trigger] is_line(contents + exclusion_for(contents), from, to) && trimmed(
                (contents + exclusion_for(contents)).subrange(from, to),
            ) == ".crev"@ ==> from == exclusion_start(contents) && to == exclusion_start(contents)
                + 5,
{
    reveal_strlit(".crev\n");
    reveal_strlit("\n.crev\n");
    reveal_strlit(".crev");
    let text = contents + exclusion_for(contents);
    let n = contents.len() as int;
    let start = exclusion_start(contents);
    assert(text.take(n) =~= contents);
    assert(is_line(text, start, start + 5));
    assert(text[start + 5] == '\n');
    assert forall|k: int| start <= k < start + 5 implies text[k] != '\n' by {}
    assert forall|from: int, to: int|
        #[trigger] is_line(text, from, to) && trimmed(text.subrange(from, to)) == ".crev"@ implies from
        == start && to == start + 5 by {
        if from < start {
            // The line lies in the contents as they were.
            if start == n {
                if to >= n {
                    assert(text[n - 1] == '\n');
                }
                assert(to < n);
            } else {
                assert(text[n] == '\n');
                assert(from != n) by {
                    if from == n {
                        assert(text[from - 1] == contents.last());
                    }
                }
                assert(to <= n);
            }
            assert(is_line(contents, from, to)) by {
                if from > 0 {
                    assert(contents[from - 1] == text[from - 1]);
                }
                if to < n {
                    assert(contents[to] == text[to]);
                }
                assert forall|k: int| from <= k < to implies contents[k] != '\n' by {
                    assert(contents[k] == text[k]);
                }
            }
            assert(text.subrange(from, to) =~= contents.subrange(from, to));
        } else if from == start {
            if to < start + 5 {
                assert(text[to] != '\n');
            }
            if to > start + 5 {
                assert(text[start + 5] == '\n');
            }
        } else {
            // Behind the added line only the empty end of the file is left.
            assert(text[from - 1] == '\n');
            assert(from == start + 6);
            assert(text.subrange(from, to) =~= Seq::<char>::empty());
            assert(trim_start(Seq::<char>::empty()) == Seq::<char>::empty());
            assert(trim_end(Seq::<char>::empty()) == Seq::<char>::empty());
            assert(".crev"@.len() == 5);
        }
    }
}

} // verus!
