use github_activity_mirror::config::{GitConfig, PushMethod, RedactLevel};
use github_activity_mirror::git::{
    CommitOutcome, Git, GitError, classify_commit, count_unpushed, parse_last_commit,
    repo_dir_name,
};

fn config(push_method: PushMethod) -> GitConfig {
    GitConfig {
        username: "alice".to_string(),
        token: "token-for-tests".to_string(),
        email: Some("alice@users.noreply.github.com".to_string()),
        redact_level: RedactLevel::PrivateRepos,
        push_method,
    }
}

#[test]
fn directory_name_replaces_separators() {
    assert_eq!(repo_dir_name("acme/lib"), "acme_lib");
    assert_eq!(repo_dir_name("plain"), "plain");
    assert_eq!(repo_dir_name("a/b/c"), "a_b_c");
}

#[test]
fn git_owns_its_config() {
    let git = Git::new(config(PushMethod::Ssh));
    assert_eq!(git.config.username, "alice");
}

#[test]
fn clone_source_follows_push_method() {
    let git = Git::new(config(PushMethod::Http));
    let http = Some("https://dst.example/alice/acme-lib.git".to_string());
    let ssh = Some("git@dst.example:alice/acme-lib.git".to_string());
    assert_eq!(
        git.clone_source(&http, &ssh).unwrap(),
        "https://dst.example/alice/acme-lib.git"
    );
    assert!(matches!(git.clone_source(&None, &ssh), Err(GitError::NoHttpUrl)));

    let git = Git::new(config(PushMethod::Ssh));
    assert_eq!(git.clone_source(&http, &ssh).unwrap(), "git@dst.example:alice/acme-lib.git");
    assert!(matches!(git.clone_source(&http, &None), Err(GitError::NoSshUrl)));
}

#[test]
fn commit_outcome_classification() {
    assert_eq!(classify_commit(true, "", ""), CommitOutcome::Committed);
    assert_eq!(
        classify_commit(
            false,
            "On branch main\nnothing to commit, working tree clean\n",
            ""
        ),
        CommitOutcome::DuplicateWarning
    );
    assert_eq!(
        classify_commit(false, "nothing to commit, working tree clean", "fatal: oops"),
        CommitOutcome::Failed
    );
    assert_eq!(classify_commit(false, "some other failure", ""), CommitOutcome::Failed);
}

#[test]
fn last_commit_parses_five_fields() {
    let line = "0123abc|alice@example.com|Alice|2024-01-01T00:00:00+00:00|fix: a thing\n";
    let c = parse_last_commit(line).unwrap();
    assert_eq!(c.sha1, "0123abc");
    assert_eq!(c.author_email, "alice@example.com");
    assert_eq!(c.author_name, "Alice");
    assert_eq!(c.timestamp, 1704067200);
    assert_eq!(c.message, "fix: a thing");
}

#[test]
fn last_commit_message_keeps_separators() {
    let line = "sha|e@x.y|N|2024-01-01T00:00:00Z|subject | with pipes";
    let c = parse_last_commit(line).unwrap();
    assert_eq!(c.message, "subject | with pipes");
}

#[test]
fn last_commit_errors() {
    assert!(matches!(parse_last_commit("  \n"), Err(GitError::NoCommits)));
    assert!(matches!(parse_last_commit("justonesha"), Err(GitError::MissingAuthorEmail)));
    assert!(matches!(parse_last_commit("sha|e@x.y"), Err(GitError::MissingAuthorName)));
    assert!(matches!(parse_last_commit("sha|e@x.y|Name"), Err(GitError::InvalidTimestamp)));
    assert!(matches!(
        parse_last_commit("sha|e@x.y|Name|not-a-date|msg"),
        Err(GitError::InvalidTimestamp)
    ));
    assert!(matches!(
        parse_last_commit("sha|e@x.y|Name|2024-01-01T00:00:00Z"),
        Err(GitError::MissingMessage)
    ));
}

#[test]
fn unpushed_count_ignores_blank_lines() {
    assert_eq!(count_unpushed("+ abc one\n+ def two\n"), 2);
    assert_eq!(count_unpushed(""), 0);
    assert_eq!(count_unpushed("\n  \n"), 0);
    assert_eq!(count_unpushed("+ only"), 1);
}
