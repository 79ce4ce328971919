//! The decision and parsing core of the local version-control gateway: the
//! working-copy directory name, the clone URL selection, the classification
//! of a commit's outcome (including the benign "nothing to commit" case),
//! the parsing of the last-commit log line, and the unpushed-commit count.
//! Running the version-control process itself is I/O and lives outside the
//! library.

use vstd::prelude::*;
use crate::activity::Commit;
use crate::config::{GitConfig, PushMethod};
use crate::text::{
    count_nonblank_lines, ends_with, is_nonblank, lemma_splitn_len, split_spec, splitn,
    splitn_spec, str_ends_with, trim_spec, trim_str,
};
use crate::time::rfc3339_secs_of;

verus! {

/// A failure of the local version-control gateway, with the structured
/// context its diagnosis needs.
#[derive(Debug)]
pub enum GitError {
    /// A command exited nonzero: the working directory, the command line,
    /// the exit code where one exists, and the captured output.
    CommandFailed { dir: String, command: String, exit_code: Option<i32>, stdout: String, stderr: String },
    /// The push method is HTTP but no HTTP clone URL is available.
    NoHttpUrl,
    /// The push method is SSH but no SSH URL is available.
    NoSshUrl,
    /// The mirror has no commits to read a watermark from.
    NoCommits,
    /// The last-commit log line lacks the author email field.
    MissingAuthorEmail,
    /// The last-commit log line lacks the author name field.
    MissingAuthorName,
    /// The last-commit log line's timestamp field is absent or unparsable.
    InvalidTimestamp,
    /// The last-commit log line lacks the message field.
    MissingMessage,
}

/// The local version-control gateway: it owns the destination-forge
/// credentials and policy its commands are run with.
pub struct Git {
    pub config: GitConfig,
}

/// The working-copy directory name for a mirror: its full name with every
/// path separator replaced, so distinct mirrors never share a directory.
pub open spec fn dir_name_spec(s: Seq<char>) -> Seq<char> {
    s.map_values(|c: char| if c == '/' { '_' } else { c })
}

/// What one run of the commit command amounts to.
#[derive(Clone, Copy, Debug, PartialEq, Eq, Structural)]
pub enum CommitOutcome {
    /// The command succeeded.
    Committed,
    /// The command failed only because the working tree was clean: a
    /// non-fatal duplicate, absorbing redaction collapsing two activities
    /// to identical content.
    DuplicateWarning,
    /// Any other failure: fatal to this repository's processing.
    Failed,
}

/// How a commit command's result is classified: success; else the benign
/// clean-tree case, recognized by an empty error stream and an output
/// ending (after trim) with the clean-tree notice; else a failure.
pub open spec fn commit_outcome_spec(success: bool, stdout: Seq<char>, stderr: Seq<char>) -> CommitOutcome {
    if success {
        CommitOutcome::Committed
    } else if stderr.len() == 0 && ends_with(
        trim_spec(stdout),
        "nothing to commit, working tree clean"@,
    ) {
        CommitOutcome::DuplicateWarning
    } else {
        CommitOutcome::Failed
    }
}

impl Git {
    pub fn new(config: GitConfig) -> (r: Self)
        ensures
            r.config == config,
    {
        Self { config }
    }

    /// Select the URL the working copy is cloned from, by push method.
    pub fn clone_source(&self, clone_url: &Option<String>, ssh_url: &Option<String>) -> (r: Result<
        String,
        GitError,
    >)
        ensures
            self.config.push_method == PushMethod::Http ==> match clone_url {
                Some(u) => r matches Ok(s) && s@ == u@,
                None => r matches Err(e) && e is NoHttpUrl,
            },
            self.config.push_method == PushMethod::Ssh ==> match ssh_url {
                Some(u) => r matches Ok(s) && s@ == u@,
                None => r matches Err(e) && e is NoSshUrl,
            },
    {
        match self.config.push_method {
            PushMethod::Http => match clone_url {
                Some(u) => Ok(u.clone()),
                None => Err(GitError::NoHttpUrl),
            },
            PushMethod::Ssh => match ssh_url {
                Some(u) => Ok(u.clone()),
                None => Err(GitError::NoSshUrl),
            },
        }
    }
}

/// The working-copy directory name for the mirror `full_name`.
pub fn repo_dir_name(full_name: &str) -> (r: String)
    ensures
        r@ == dir_name_spec(full_name@),
{
    let mut r = String::new();
    let len = full_name.unicode_len();
    let mut i: usize = 0;
    assert(r@ =~= dir_name_spec(full_name@.take(0)));
    while i < len
        invariant
            i <= len,
            len == full_name@.len(),
            r@ == dir_name_spec(full_name@.take(i as int)),
        decreases len - i,
    {
        let c = full_name.get_char(i);
        if c == '/' {
            proof {
                reveal_strlit("_");
            }
            r.append("_");
        } else {
            let piece = full_name.substring_char(i, i + 1);
            r.append(piece);
        }
        proof {
            assert(r@ =~= dir_name_spec(full_name@.take(i + 1)));
        }
        i = i + 1;
    }
    proof {
        assert(full_name@.take(len as int) =~= full_name@);
    }
    r
}

/// Classify what a run of the commit command amounted to.
pub fn classify_commit(success: bool, stdout: &str, stderr: &str) -> (r: CommitOutcome)
    ensures
        r == commit_outcome_spec(success, stdout@, stderr@),
{
    if success {
        CommitOutcome::Committed
    } else {
        let trimmed = trim_str(stdout);
        if stderr.is_empty() && str_ends_with(
            trimmed.as_str(),
            "nothing to commit, working tree clean",
        ) {
            CommitOutcome::DuplicateWarning
        } else {
            CommitOutcome::Failed
        }
    }
}

/// Parse the one-line last-commit record the version-control tool prints:
/// five fields separated by `|` — sha, author email, author name, RFC 3339
/// timestamp, message (the message keeps any further separators). Reports
/// the mirror as empty, a missing field, or an unparsable timestamp.
pub fn parse_last_commit(log_output: &str) -> (r: Result<Commit, GitError>)
    ensures
        ({
            let t = trim_spec(log_output@);
            let parts = splitn_spec(t, '|', 5);
            &&& (t.len() == 0 ==> (r matches Err(e) && e is NoCommits))
            &&& (t.len() > 0 ==> {
                &&& (parts.len() == 1 ==> (r matches Err(e) && e is MissingAuthorEmail))
                &&& (parts.len() == 2 ==> (r matches Err(e) && e is MissingAuthorName))
                &&& (parts.len() == 3 ==> (r matches Err(e) && e is InvalidTimestamp))
                &&& (parts.len() >= 4 && rfc3339_secs_of(parts[3]) is None ==> (r matches Err(e)
                    && e is InvalidTimestamp))
                &&& (parts.len() == 4 && rfc3339_secs_of(parts[3]) is Some ==> (r matches Err(e)
                    && e is MissingMessage))
                &&& (parts.len() == 5 && rfc3339_secs_of(parts[3]) is Some ==> (r matches Ok(c)
                    && {
                    &&& c.sha1@ == parts[0]
                    &&& c.author_email@ == parts[1]
                    &&& c.author_name@ == parts[2]
                    &&& Some(c.timestamp) == rfc3339_secs_of(parts[3])
                    &&& c.message@ == parts[4]
                }))
            })
        }),
{
    let trimmed = trim_str(log_output);
    if trimmed.as_str().is_empty() {
        return Err(GitError::NoCommits);
    }
    let parts = splitn(trimmed.as_str(), '|', 5);
    proof {
        lemma_splitn_len(trimmed@, '|', 5);
    }
    if parts.len() == 1 {
        return Err(GitError::MissingAuthorEmail);
    }
    if parts.len() == 2 {
        return Err(GitError::MissingAuthorName);
    }
    if parts.len() == 3 {
        return Err(GitError::InvalidTimestamp);
    }
    let secs = match crate::time::parse_rfc3339_secs(parts[3].as_str()) {
        Some(v) => v,
        None => {
            return Err(GitError::InvalidTimestamp);
        },
    };
    if parts.len() == 4 {
        return Err(GitError::MissingMessage);
    }
    Ok(
        Commit {
            sha1: parts[0].clone(),
            author_email: parts[1].clone(),
            author_name: parts[2].clone(),
            timestamp: secs,
            message: parts[4].clone(),
        },
    )
}

/// Count the unpushed commits the comparison command listed: one per
/// non-blank output line.
pub fn count_unpushed(output: &str) -> (r: usize)
    ensures
        r == split_spec(output@, '\n').filter(is_nonblank()).len(),
{
    count_nonblank_lines(output)
}

} // verus!
