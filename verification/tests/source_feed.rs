use github_activity_mirror::activity::{ActivityContent, ActivitySet, OpType, Repository};
use github_activity_mirror::source::SourceActivities;
use github_activity_mirror::config::{
    AdapterKind, ConfigError, PushMethod, RedactLevel, ServiceType,
};
use github_activity_mirror::source::{
    FeedKind, SourceUser, backfill_insert, commit_from_feed, commit_from_history,
    commit_source_link, feed_kind, issue_activity, issue_source_link, parse_issue_content,
    source_repository,
};

#[test]
fn issue_content_parses_id_and_title() {
    assert_eq!(
        parse_issue_content("1|Scrape all happens syncronous"),
        Some((1, "Scrape all happens syncronous".to_string()))
    );
}

#[test]
fn issue_content_drops_zero_and_malformed_ids() {
    assert_eq!(parse_issue_content("0|anything"), None);
    assert_eq!(parse_issue_content("abc|anything"), None);
    assert_eq!(parse_issue_content(""), None);
}

#[test]
fn issue_content_without_title() {
    assert_eq!(parse_issue_content("5"), Some((5, String::new())));
}

#[test]
fn issue_content_takes_second_field_only() {
    assert_eq!(parse_issue_content("2|first|second"), Some((2, "first".to_string())));
}

#[test]
fn feed_kinds() {
    assert_eq!(feed_kind(OpType::CommitRepo), FeedKind::Commits);
    assert_eq!(feed_kind(OpType::CreateIssue), FeedKind::IssueCreated);
    assert_eq!(feed_kind(OpType::StarRepo), FeedKind::Unsupported);
    assert_eq!(feed_kind(OpType::CreatePullRequest), FeedKind::Unsupported);
}

#[test]
fn adapter_selection() {
    assert_eq!(ServiceType::Gitea.adapter_kind(), Some(AdapterKind::GiteaCompatible));
    assert_eq!(ServiceType::Codeberg.adapter_kind(), Some(AdapterKind::GiteaCompatible));
    assert_eq!(ServiceType::Gitlab.adapter_kind(), None);
    assert_eq!(ServiceType::Sourcehut.adapter_kind(), None);
}

#[test]
fn level_codes_round_trip() {
    assert_eq!(RedactLevel::from_code(0), Ok(RedactLevel::Off));
    assert_eq!(RedactLevel::from_code(1), Ok(RedactLevel::PrivateRepos));
    assert_eq!(RedactLevel::from_code(2), Ok(RedactLevel::PrivateReposNoCrossLinking));
    assert_eq!(RedactLevel::from_code(3), Err(ConfigError::EncryptedNotImplemented));
    assert_eq!(RedactLevel::from_code(4), Ok(RedactLevel::Hashed));
    assert_eq!(RedactLevel::from_code(5), Err(ConfigError::InvalidRedactLevel));
    assert_eq!(RedactLevel::Hashed.as_code(), 4);
    assert_eq!(RedactLevel::default(), RedactLevel::PrivateRepos);
    assert_eq!(PushMethod::default(), PushMethod::Ssh);
}

#[test]
fn feed_commit_is_trimmed_and_dated() {
    let a = commit_from_feed(
        "sha1".to_string(),
        "  a message\n",
        "alice@example.com".to_string(),
        "alice".to_string(),
        1704067200,
        "https://src.example/acme/lib/commit/sha1".to_string(),
    );
    assert_eq!(a.op_type, OpType::CommitRepo);
    assert_eq!(a.date, 1704067200);
    assert_eq!(a.username, "alice");
    match a.content {
        ActivityContent::Commit(c) => {
            assert_eq!(c.message, "a message");
            assert_eq!(c.timestamp, 1704067200);
        },
        ActivityContent::Issue(_) => panic!("expected a commit"),
    }
}

#[test]
fn history_commit_prefers_attached_account() {
    let user = SourceUser {
        email: "acct@example.com".to_string(),
        username: "acct".to_string(),
    };
    let a = commit_from_history(
        "sha".to_string(),
        "msg",
        100,
        &Some(user),
        "raw@example.com",
        "Raw Name",
        "https://src.example/c/sha".to_string(),
    );
    assert_eq!(a.email, "acct@example.com");
    assert_eq!(a.username, "acct");

    let b = commit_from_history(
        "sha".to_string(),
        "msg",
        100,
        &None,
        "raw@example.com",
        "Raw Name",
        "https://src.example/c/sha".to_string(),
    );
    assert_eq!(b.email, "raw@example.com");
    assert_eq!(b.username, "Raw Name");
}

#[test]
fn issue_activity_fields() {
    let a = issue_activity(
        9,
        "a title".to_string(),
        250,
        "alice".to_string(),
        "alice@example.com".to_string(),
        "https://src.example/issues/9".to_string(),
    );
    assert_eq!(a.op_type, OpType::CreateIssue);
    assert_eq!(a.date, 250);
    match a.content {
        ActivityContent::Issue(i) => {
            assert_eq!(i.issue_id, 9);
            assert_eq!(i.message, "a title");
        },
        ActivityContent::Commit(_) => panic!("expected an issue"),
    }
}

#[test]
fn repository_ownership_is_case_insensitive() {
    let r = source_repository(
        "Alice",
        "aLiCe".to_string(),
        "lib".to_string(),
        "alice/lib".to_string(),
        "".to_string(),
        "https://src.example/alice/lib".to_string(),
        "https://src.example/alice/lib.git".to_string(),
        true,
        1704067200,
    );
    assert!(r.owned_by_you);
    assert_eq!(r.description, None);

    let foreign = source_repository(
        "alice",
        "acme".to_string(),
        "lib".to_string(),
        "acme/lib".to_string(),
        "tools".to_string(),
        "https://src.example/acme/lib".to_string(),
        "https://src.example/acme/lib.git".to_string(),
        false,
        1704067200,
    );
    assert!(!foreign.owned_by_you);
    assert_eq!(foreign.description, Some("tools".to_string()));
}

#[test]
fn backfill_requires_username_match_and_novelty() {
    let mut set = ActivitySet::new();
    let a = commit_from_feed(
        "s1".to_string(),
        "work",
        "alice@example.com".to_string(),
        "Alice".to_string(),
        100,
        "https://src.example/c/s1".to_string(),
    );
    // Lowercased author must equal the configured username.
    assert!(backfill_insert(&mut set, a.clone(), "alice"));
    assert!(!backfill_insert(&mut set, a.clone(), "alice"));
    assert_eq!(set.len(), 1);

    let other = commit_from_feed(
        "s2".to_string(),
        "work",
        "bob@example.com".to_string(),
        "Bob".to_string(),
        100,
        "https://src.example/c/s2".to_string(),
    );
    assert!(!backfill_insert(&mut set, other, "alice"));
    assert_eq!(set.len(), 1);
}

fn repository(owner: &str, name: &str, description: Option<&str>) -> Repository {
    Repository {
        owned_by_you: false,
        owner: owner.to_string(),
        name: name.to_string(),
        description: description.map(|d| d.to_string()),
        full_name: format!("{}/{}", owner, name),
        html_url: format!("https://src.example/{}/{}", owner, name),
        clone_url: format!("https://src.example/{}/{}.git", owner, name),
        private: true,
        created_date: 1704067200,
    }
}

#[test]
fn repository_identity_is_full_structural_equality() {
    let a = repository("acme", "lib", Some("tools"));
    assert!(a.same_as(&repository("acme", "lib", Some("tools"))));
    // any differing field, the description included, makes a distinct group
    assert!(!a.same_as(&repository("acme", "lib", Some("tools!"))));
    assert!(!a.same_as(&repository("acme", "lib", None)));
    assert!(!a.same_as(&repository("acme", "lib2", Some("tools"))));
}

#[test]
fn grouping_deduplicates_per_slot() {
    let mut grouped = SourceActivities::new();
    let repo = repository("acme", "lib", None);
    let a = commit_from_feed(
        "s1".to_string(),
        "work",
        "alice@example.com".to_string(),
        "Alice".to_string(),
        100,
        "https://src.example/c/s1".to_string(),
    );
    let j = grouped.add(repo.clone(), a.clone());
    assert_eq!(j, 0);
    // the same event lands in the same slot and is absorbed
    assert_eq!(grouped.add(repo.clone(), a.clone()), 0);
    assert_eq!(grouped.len(), 1);
    // a distinct repository opens a new slot
    let other = repository("acme", "extra", None);
    assert_eq!(grouped.add(other.clone(), a.clone()), 1);
    assert_eq!(grouped.len(), 2);
    assert_eq!(grouped.find_repo(&repo), Some(0));
    assert_eq!(grouped.find_repo(&other), Some(1));
    assert_eq!(grouped.find_repo(&repository("acme", "third", None)), None);

    let entries = grouped.into_entries();
    assert_eq!(entries.len(), 2);
    assert_eq!(entries[0].set.len(), 1);
    assert_eq!(entries[1].set.len(), 1);
}

#[test]
fn grouping_backfill_obeys_acceptance_rule() {
    let mut grouped = SourceActivities::new();
    let repo = repository("acme", "lib", None);
    let seen = commit_from_feed(
        "s1".to_string(),
        "work",
        "alice@example.com".to_string(),
        "Alice".to_string(),
        100,
        "https://src.example/c/s1".to_string(),
    );
    let j = grouped.add(repo, seen.clone());
    // already present: absorbed
    assert!(!grouped.backfill_at(j, seen, "alice"));
    // wrong author: rejected
    let foreign = commit_from_feed(
        "s2".to_string(),
        "other work",
        "bob@example.com".to_string(),
        "Bob".to_string(),
        200,
        "https://src.example/c/s2".to_string(),
    );
    assert!(!grouped.backfill_at(j, foreign, "alice"));
    // new commit by the configured user: accepted
    let own = commit_from_feed(
        "s3".to_string(),
        "more work",
        "alice@example.com".to_string(),
        "Alice".to_string(),
        300,
        "https://src.example/c/s3".to_string(),
    );
    assert!(grouped.backfill_at(j, own, "alice"));
    let entries = grouped.into_entries();
    assert_eq!(entries[0].set.len(), 2);
}

#[test]
fn commit_link_appends_segments() {
    assert_eq!(
        commit_source_link("https://src.example/acme/lib", "abc123"),
        Some("https://src.example/acme/lib/commit/abc123".to_string())
    );
    assert_eq!(commit_source_link("not a url", "abc"), None);
}

#[test]
fn issue_link_joins_reference() {
    // Url::join resolves against the base, replacing its last segment.
    assert_eq!(
        issue_source_link("https://src.example/acme/lib", 5),
        Some("https://src.example/acme/issues/5".to_string())
    );
    assert_eq!(
        issue_source_link("https://src.example/acme/lib/", 5),
        Some("https://src.example/acme/lib/issues/5".to_string())
    );
    assert_eq!(issue_source_link("not a url", 5), None);
}
