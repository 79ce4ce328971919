//! The redaction policy: given the configured level and a content class,
//! the exact text the mirror publishes. `Off` and `PrivateRepos` pass text
//! through and append a traceability link; `PrivateReposNoCrossLinking`
//! passes text through without the link; `Hashed` replaces the text with a
//! deterministic one-way digest of the canonical input; the reserved
//! `Encrypted` level fails fast.

use vstd::prelude::*;
use crate::activity::{Commit, Issue, Repository};
use crate::config::{ConfigError, RedactLevel};
use crate::text::dec_of;
use crate::text::ends_with;
use crate::text::str_ends_with;
use crate::text::trim_end_spec;
use crate::text::trim_end_str;
use crate::time::ts_display_of;
use crate::time::timestamp_display;

verus! {

/// The 40-character lowercase hex form of the SHA-1 digest of `s`;
/// a function of the text alone.
pub uninterp spec fn sha1_hex_of(s: Seq<char>) -> Seq<char>;

/// Relies on sha1_smol: `Sha1::from(s).digest().to_string()` renders the
/// 20-byte SHA-1 digest of the input bytes as 40 lowercase hex characters,
/// a function of the input alone.
#[verifier::external_body]
pub(crate) fn sha1_hex(s: &str) -> (r: String)
    ensures
        r@ == sha1_hex_of(s@),
        r@.len() == 40,
{
    sha1_smol::Sha1::from(s).digest().to_string()
}

/// The commit subject published for a commit message, by level.
pub open spec fn commit_subject_spec(
    level: RedactLevel,
    message: Seq<char>,
    link: Seq<char>,
) -> Seq<char> {
    match level {
        RedactLevel::PrivateReposNoCrossLinking => message,
        RedactLevel::Hashed => sha1_hex_of(message),
        RedactLevel::Encrypted => Seq::empty(),
        _ => message + "\n\nMirrored from: "@ + link,
    }
}

/// The canonical line describing a commit: sha1, rendered timestamp, message.
pub open spec fn commit_line_spec(sha1: Seq<char>, ts: i64, message: Seq<char>) -> Seq<char> {
    sha1 + " "@ + ts_display_of(ts) + ": "@ + message
}

/// The file content published for a commit, by level.
pub open spec fn commit_body_spec(
    level: RedactLevel,
    sha1: Seq<char>,
    ts: i64,
    message: Seq<char>,
    link: Seq<char>,
) -> Seq<char> {
    match level {
        RedactLevel::PrivateReposNoCrossLinking => commit_line_spec(sha1, ts, message),
        RedactLevel::Hashed => sha1_hex_of(commit_line_spec(sha1, ts, message)),
        RedactLevel::Encrypted => Seq::empty(),
        _ => commit_line_spec(sha1, ts, message) + "\n\n*"@ + link + "*"@,
    }
}

/// The issue title before the length cap, by level.
pub open spec fn issue_title_raw_spec(
    level: RedactLevel,
    issue_id: u64,
    message: Seq<char>,
) -> Seq<char> {
    match level {
        RedactLevel::Hashed => sha1_hex_of(dec_of(issue_id as nat) + ": "@ + message),
        RedactLevel::Encrypted => Seq::empty(),
        _ => "["@ + dec_of(issue_id as nat) + "] "@ + message,
    }
}

/// The issue-title length cap: titles longer than 255 characters keep
/// their first 252 characters plus a three-character ellipsis marker;
/// shorter titles pass unchanged.
pub open spec fn truncate_title_spec(s: Seq<char>) -> Seq<char> {
    if s.len() > 255 {
        s.take(252) + "..."@
    } else {
        s
    }
}

/// The length cap holds with its exact boundary: a title of up to 255
/// characters passes unchanged, a longer one leaves exactly 255 characters
/// ending in the ellipsis marker.
pub proof fn lemma_title_cap(s: Seq<char>)
    ensures
        s.len() <= 255 ==> truncate_title_spec(s) == s,
        s.len() > 255 ==> truncate_title_spec(s).len() == 255,
        s.len() > 255 ==> ends_with(truncate_title_spec(s), "..."@),
{
    reveal_strlit("...");
    if s.len() > 255 {
        let t = truncate_title_spec(s);
        assert(t.len() == 255);
        assert(t.subrange(252, 255) =~= "..."@);
    }
}

/// The issue title published, by level: the cap applies after redaction.
pub open spec fn issue_title_spec(level: RedactLevel, issue_id: u64, message: Seq<char>) -> Seq<
    char,
> {
    truncate_title_spec(issue_title_raw_spec(level, issue_id, message))
}

/// The canonical text describing an issue: id, title text, rendered date.
pub open spec fn issue_text_spec(issue_id: u64, message: Seq<char>, date: i64) -> Seq<char> {
    "## Issue ID: "@ + dec_of(issue_id as nat) + "\n\n"@ + message + "\n\n"@ + ts_display_of(date)
}

/// The issue body published, by level.
pub open spec fn issue_body_spec(
    level: RedactLevel,
    issue_id: u64,
    message: Seq<char>,
    date: i64,
    link: Seq<char>,
) -> Seq<char> {
    match level {
        RedactLevel::PrivateReposNoCrossLinking => issue_text_spec(issue_id, message, date),
        RedactLevel::Hashed => sha1_hex_of(issue_text_spec(issue_id, message, date)),
        RedactLevel::Encrypted => Seq::empty(),
        _ => issue_text_spec(issue_id, message, date) + "\n\n*"@ + link + "*"@,
    }
}

/// The target repository name before redaction: the source name for a
/// repository owned by the operator, else namespaced as `{owner}-{name}`.
pub open spec fn target_name_spec(owned: bool, owner: Seq<char>, name: Seq<char>) -> Seq<char> {
    if owned {
        name
    } else {
        owner + "-"@ + name
    }
}

/// The mirror repository name: the target name, replaced by its digest
/// under `Hashed`.
pub open spec fn mirror_name_spec(level: RedactLevel, tname: Seq<char>) -> Seq<char> {
    match level {
        RedactLevel::Hashed => sha1_hex_of(tname),
        RedactLevel::Encrypted => Seq::empty(),
        _ => tname,
    }
}

/// The mirror description text for a present source description, by level.
pub open spec fn mirror_description_spec(level: RedactLevel, desc: Seq<char>) -> Seq<char> {
    match level {
        RedactLevel::Hashed => sha1_hex_of(desc),
        RedactLevel::Encrypted => Seq::empty(),
        _ => desc,
    }
}

/// The mirror is private unless redaction is fully off.
pub open spec fn mirror_private_spec(level: RedactLevel) -> bool {
    level != RedactLevel::Off
}

/// The commit subject for `c`, or the fatal error for the reserved level.
pub fn redact_commit_subject(level: RedactLevel, c: &Commit, link: &str) -> (r: Result<
    String,
    ConfigError,
>)
    ensures
        r is Err <==> level == RedactLevel::Encrypted,
        r is Err ==> r == Err::<String, ConfigError>(ConfigError::EncryptedNotImplemented),
        r matches Ok(t) ==> t@ == commit_subject_spec(level, c.message@, link@),
{
    match level {
        RedactLevel::PrivateReposNoCrossLinking => Ok(c.message.clone()),
        RedactLevel::Encrypted => Err(ConfigError::EncryptedNotImplemented),
        RedactLevel::Hashed => Ok(sha1_hex(c.message.as_str())),
        _ => {
            let mut t = c.message.clone();
            t.append("\n\nMirrored from: ");
            t.append(link);
            proof {
                assert(t@ =~= c.message@ + "\n\nMirrored from: "@ + link@);
            }
            Ok(t)
        },
    }
}

/// The canonical line describing `c`.
fn commit_line(c: &Commit) -> (r: String)
    ensures
        r@ == commit_line_spec(c.sha1@, c.timestamp, c.message@),
{
    let mut t = c.sha1.clone();
    t.append(" ");
    let tsd = timestamp_display(c.timestamp);
    t.append(tsd.as_str());
    t.append(": ");
    t.append(c.message.as_str());
    proof {
        assert(t@ =~= c.sha1@ + " "@ + ts_display_of(c.timestamp) + ": "@ + c.message@);
    }
    t
}

/// The mirror file content for `c`, or the fatal error for the reserved level.
pub fn redact_commit_body(level: RedactLevel, c: &Commit, link: &str) -> (r: Result<
    String,
    ConfigError,
>)
    ensures
        r is Err <==> level == RedactLevel::Encrypted,
        r is Err ==> r == Err::<String, ConfigError>(ConfigError::EncryptedNotImplemented),
        r matches Ok(t) ==> t@ == commit_body_spec(level, c.sha1@, c.timestamp, c.message@, link@),
{
    match level {
        RedactLevel::PrivateReposNoCrossLinking => Ok(commit_line(c)),
        RedactLevel::Encrypted => Err(ConfigError::EncryptedNotImplemented),
        RedactLevel::Hashed => {
            let line = commit_line(c);
            Ok(sha1_hex(line.as_str()))
        },
        _ => {
            let mut t = commit_line(c);
            t.append("\n\n*");
            t.append(link);
            t.append("*");
            proof {
                assert(t@ =~= commit_line_spec(c.sha1@, c.timestamp, c.message@) + "\n\n*"@ + link@
                    + "*"@);
            }
            Ok(t)
        },
    }
}

/// Cap a title at 255 characters per the truncation rule.
pub fn truncate_title(t: String) -> (r: String)
    ensures
        r@ == truncate_title_spec(t@),
{
    let len = t.as_str().unicode_len();
    if len > 255 {
        let head = t.as_str().substring_char(0, 252);
        let mut r = String::from_str(head);
        r.append("...");
        proof {
            assert(t@.subrange(0, 252) =~= t@.take(252));
        }
        r
    } else {
        t
    }
}

/// The issue title for `i` (redacted, then capped), or the fatal error for
/// the reserved level.
pub fn redact_issue_title(level: RedactLevel, i: &Issue) -> (r: Result<String, ConfigError>)
    ensures
        r is Err <==> level == RedactLevel::Encrypted,
        r is Err ==> r == Err::<String, ConfigError>(ConfigError::EncryptedNotImplemented),
        r matches Ok(t) ==> t@ == issue_title_spec(level, i.issue_id, i.message@),
{
    match level {
        RedactLevel::Encrypted => Err(ConfigError::EncryptedNotImplemented),
        RedactLevel::Hashed => {
            let mut t = crate::text::u64_to_dec(i.issue_id);
            t.append(": ");
            t.append(i.message.as_str());
            proof {
                assert(t@ =~= dec_of(i.issue_id as nat) + ": "@ + i.message@);
            }
            Ok(truncate_title(sha1_hex(t.as_str())))
        },
        _ => {
            let mut t = String::from_str("[");
            let id = crate::text::u64_to_dec(i.issue_id);
            t.append(id.as_str());
            t.append("] ");
            t.append(i.message.as_str());
            proof {
                assert(t@ =~= "["@ + dec_of(i.issue_id as nat) + "] "@ + i.message@);
            }
            Ok(truncate_title(t))
        },
    }
}

/// The canonical text describing issue `i` dated `date`.
fn issue_text(i: &Issue, date: i64) -> (r: String)
    ensures
        r@ == issue_text_spec(i.issue_id, i.message@, date),
{
    let mut t = String::from_str("## Issue ID: ");
    let id = crate::text::u64_to_dec(i.issue_id);
    t.append(id.as_str());
    t.append("\n\n");
    t.append(i.message.as_str());
    t.append("\n\n");
    let tsd = timestamp_display(date);
    t.append(tsd.as_str());
    proof {
        assert(t@ =~= "## Issue ID: "@ + dec_of(i.issue_id as nat) + "\n\n"@ + i.message@
            + "\n\n"@ + ts_display_of(date));
    }
    t
}

/// The issue body for `i`, or the fatal error for the reserved level.
pub fn redact_issue_body(level: RedactLevel, i: &Issue, date: i64, link: &str) -> (r: Result<
    String,
    ConfigError,
>)
    ensures
        r is Err <==> level == RedactLevel::Encrypted,
        r is Err ==> r == Err::<String, ConfigError>(ConfigError::EncryptedNotImplemented),
        r matches Ok(t) ==> t@ == issue_body_spec(level, i.issue_id, i.message@, date, link@),
{
    match level {
        RedactLevel::PrivateReposNoCrossLinking => Ok(issue_text(i, date)),
        RedactLevel::Encrypted => Err(ConfigError::EncryptedNotImplemented),
        RedactLevel::Hashed => {
            let t = issue_text(i, date);
            Ok(sha1_hex(t.as_str()))
        },
        _ => {
            let mut t = issue_text(i, date);
            t.append("\n\n*");
            t.append(link);
            t.append("*");
            proof {
                assert(t@ =~= issue_text_spec(i.issue_id, i.message@, date) + "\n\n*"@ + link@
                    + "*"@);
            }
            Ok(t)
        },
    }
}

/// The target name for `repo` before redaction.
pub fn target_name(repo: &Repository) -> (r: String)
    ensures
        r@ == target_name_spec(repo.owned_by_you, repo.owner@, repo.name@),
{
    if repo.owned_by_you {
        repo.name.clone()
    } else {
        let mut t = repo.owner.clone();
        t.append("-");
        t.append(repo.name.as_str());
        proof {
            assert(t@ =~= repo.owner@ + "-"@ + repo.name@);
        }
        t
    }
}

/// The mirror name for a target name, or the fatal error for the reserved
/// level.
pub fn mirror_name(level: RedactLevel, tname: &str) -> (r: Result<String, ConfigError>)
    ensures
        r is Err <==> level == RedactLevel::Encrypted,
        r is Err ==> r == Err::<String, ConfigError>(ConfigError::EncryptedNotImplemented),
        r matches Ok(t) ==> t@ == mirror_name_spec(level, tname@),
{
    match level {
        RedactLevel::Encrypted => Err(ConfigError::EncryptedNotImplemented),
        RedactLevel::Hashed => Ok(sha1_hex(tname)),
        _ => Ok(String::from_str(tname)),
    }
}

/// The mirror description for `repo`, or the fatal error for the reserved
/// level; a repository without a description keeps none.
pub fn mirror_description(level: RedactLevel, repo: &Repository) -> (r: Result<
    Option<String>,
    ConfigError,
>)
    ensures
        r is Err <==> level == RedactLevel::Encrypted,
        r is Err ==> r == Err::<Option<String>, ConfigError>(ConfigError::EncryptedNotImplemented),
        level != RedactLevel::Encrypted && repo.description is None ==> r == Ok::<
            Option<String>,
            ConfigError,
        >(None),
        r matches Ok(Some(t)) ==> repo.description matches Some(d) && t@
            == mirror_description_spec(level, d@),
        level != RedactLevel::Encrypted && repo.description is Some ==> (r matches Ok(o) && o
            is Some),
{
    match level {
        RedactLevel::Encrypted => Err(ConfigError::EncryptedNotImplemented),
        RedactLevel::Hashed => match &repo.description {
            Some(d) => Ok(Some(sha1_hex(d.as_str()))),
            None => Ok(None),
        },
        _ => match &repo.description {
            Some(d) => Ok(Some(d.clone())),
            None => Ok(None),
        },
    }
}

/// Hashed redaction is deterministic and link-free: the published text is a
/// function of the canonical input alone, so identical inputs give
/// byte-identical output on every run, whatever the source links say.
pub proof fn lemma_hashed_redaction_deterministic(
    message: Seq<char>,
    sha1: Seq<char>,
    ts: i64,
    issue_id: u64,
    link1: Seq<char>,
    link2: Seq<char>,
)
    ensures
        commit_subject_spec(RedactLevel::Hashed, message, link1) == commit_subject_spec(
            RedactLevel::Hashed,
            message,
            link2,
        ),
        commit_body_spec(RedactLevel::Hashed, sha1, ts, message, link1) == commit_body_spec(
            RedactLevel::Hashed,
            sha1,
            ts,
            message,
            link2,
        ),
        issue_body_spec(RedactLevel::Hashed, issue_id, message, ts, link1) == issue_body_spec(
            RedactLevel::Hashed,
            issue_id,
            message,
            ts,
            link2,
        ),
{
}

/// The fixed attribution text every mirror's README must end with; written
/// on creation, checked on every resolution pass. Changing it would break
/// recognition of previously created mirrors.
pub open spec fn marker_text() -> Seq<char> {
    "<sub>This repo was mirrored using [github-activity-mirror](https://codeberg.org/Aadniz/github-activity-mirror), preserving the privacy while at the same time display your actual activity</sub>"@
}

/// The marker as a value, the sole content of a new mirror's README.
pub fn mirror_marker() -> (r: String)
    ensures
        r@ == marker_text(),
{
    String::from_str(
        "<sub>This repo was mirrored using [github-activity-mirror](https://codeberg.org/Aadniz/github-activity-mirror), preserving the privacy while at the same time display your actual activity</sub>",
    )
}

/// The README content after replaying a commit: the commit's published
/// body, a blank line, then the marker.
pub open spec fn readme_content_spec(body: Seq<char>) -> Seq<char> {
    body + "\n\n"@ + marker_text()
}

/// Build the README content for a replayed commit body.
pub fn readme_with_marker(body: &str) -> (r: String)
    ensures
        r@ == readme_content_spec(body@),
{
    let mut t = String::from_str(body);
    t.append("\n\n");
    let m = mirror_marker();
    t.append(m.as_str());
    proof {
        assert(t@ =~= body@ + "\n\n"@ + marker_text());
    }
    t
}

/// A repository is a recognized mirror exactly when its README, after
/// trailing-whitespace trim, ends with the marker.
pub open spec fn is_mirror_readme(content: Seq<char>) -> bool {
    ends_with(trim_end_spec(content), marker_text())
}

/// Whether README `content` marks a recognized mirror.
pub fn readme_is_mirror(content: &str) -> (r: bool)
    ensures
        r == is_mirror_readme(content@),
{
    let trimmed = trim_end_str(content);
    let m = mirror_marker();
    str_ends_with(trimmed.as_str(), m.as_str())
}

} // verus!
