use github_activity_mirror::activity::{
    Activity, ActivityContent, ActivitySet, Commit, Issue, OpType, sort_activities,
};
use github_activity_mirror::config::{ConfigError, RedactLevel};
use github_activity_mirror::engine::{
    CreationPlan, IssueRecord, LookupOutcome, ResolveStep, creation_plan, filter_after,
    first_real_issue, keep_real_issues, pick_noreply_email, resolve_names, resolve_next,
    should_push, should_sync_found, titles_of, watermark,
};
use github_activity_mirror::redact::mirror_marker;
use github_activity_mirror::replay::{ReplayAction, plan_replay};

fn commit_activity(sha1: &str, message: &str, date: i64) -> Activity {
    Activity {
        op_type: OpType::CommitRepo,
        date,
        content: ActivityContent::Commit(Commit {
            sha1: sha1.to_string(),
            message: message.to_string(),
            author_email: "alice@example.com".to_string(),
            author_name: "alice".to_string(),
            timestamp: date,
        }),
        source_link: format!("https://src.example/c/{}", sha1),
        username: "alice".to_string(),
        email: "alice@example.com".to_string(),
    }
}

fn issue_record_activity(id: u64, message: &str, date: i64) -> Activity {
    Activity {
        op_type: OpType::CreateIssue,
        date,
        content: ActivityContent::Issue(Issue { issue_id: id, message: message.to_string() }),
        source_link: format!("https://src.example/issues/{}", id),
        username: "alice".to_string(),
        email: "alice@example.com".to_string(),
    }
}

fn source_repo(owned: bool) -> github_activity_mirror::activity::Repository {
    github_activity_mirror::activity::Repository {
        owned_by_you: owned,
        owner: "acme".to_string(),
        name: "lib".to_string(),
        description: None,
        full_name: "acme/lib".to_string(),
        html_url: "https://src.example/acme/lib".to_string(),
        clone_url: "https://src.example/acme/lib.git".to_string(),
        private: true,
        created_date: 1704067200,
    }
}

#[test]
fn watermark_is_newest_of_commit_and_issue() {
    assert_eq!(watermark(100, None), 100);
    assert_eq!(watermark(100, Some(50)), 100);
    assert_eq!(watermark(100, Some(150)), 150);
}

#[test]
fn watermark_filter_boundary() {
    let t = 1704067200;
    let acts = vec![
        commit_activity("at", "at watermark", t),
        commit_activity("after", "one second later", t + 1),
        commit_activity("before", "earlier", t - 1),
    ];
    let kept = filter_after(acts, t);
    assert_eq!(kept.len(), 1);
    assert_eq!(kept[0].date, t + 1);
}

#[test]
fn second_run_replays_nothing() {
    let acts = vec![
        commit_activity("c1", "one", 100),
        commit_activity("c2", "two", 200),
        issue_record_activity(1, "an issue", 150),
    ];
    // After the first run the watermark equals the newest activity instant.
    let wm = 200;
    let sorted = sort_activities(acts);
    let survivors = filter_after(sorted, wm);
    assert!(survivors.is_empty());
    let plan = plan_replay(RedactLevel::Off, &survivors, &Vec::new()).unwrap();
    assert!(plan.is_empty());
}

#[test]
fn plan_replays_commits_and_new_issues_in_order() {
    let acts = vec![
        commit_activity("c1", "one", 100),
        issue_record_activity(1, "known issue", 150),
        issue_record_activity(2, "new issue", 200),
        commit_activity("c2", "two", 300),
    ];
    let existing = vec!["[1] known issue".to_string()];
    let plan = plan_replay(RedactLevel::Off, &acts, &existing).unwrap();
    assert_eq!(plan.len(), 3);
    match &plan[0] {
        ReplayAction::Commit { subject, date, .. } => {
            assert!(subject.starts_with("one"));
            assert_eq!(*date, 100);
        },
        ReplayAction::NewIssue { .. } => panic!("expected a commit action"),
    }
    match &plan[1] {
        ReplayAction::NewIssue { title, date, .. } => {
            assert_eq!(title, "[2] new issue");
            assert_eq!(*date, 200);
        },
        ReplayAction::Commit { .. } => panic!("expected an issue action"),
    }
    match &plan[2] {
        ReplayAction::Commit { date, .. } => assert_eq!(*date, 300),
        ReplayAction::NewIssue { .. } => panic!("expected a commit action"),
    }
}

#[test]
fn plan_prevents_intra_run_issue_duplicates() {
    let acts = vec![
        issue_record_activity(3, "same title", 100),
        issue_record_activity(3, "same title", 200),
    ];
    let plan = plan_replay(RedactLevel::Off, &acts, &Vec::new()).unwrap();
    assert_eq!(plan.len(), 1);
}

#[test]
fn plan_rejects_encrypted_level() {
    let acts = vec![commit_activity("c1", "one", 100)];
    let r = plan_replay(RedactLevel::Encrypted, &acts, &Vec::new());
    assert!(matches!(r, Err(ConfigError::EncryptedNotImplemented)));
}

#[test]
fn creation_scenario_foreign_repo() {
    // One new foreign repository with a single commit activity dated
    // 2024-01-01T00:00:00Z.
    let mut set = ActivitySet::new();
    set.insert(commit_activity("c1", "first work", 1704067200));
    let plan: CreationPlan = creation_plan(RedactLevel::Off, &source_repo(false), &set).unwrap();
    assert_eq!(plan.name, "acme-lib");
    assert_eq!(plan.readme, mirror_marker());
    assert_eq!(plan.commit_subject, "Initial commit");
    // 2024-01-01T00:00:00Z in epoch seconds: the initial commit is dated
    // at the earliest activity, not at the replay time.
    assert_eq!(plan.date, 1704067200);
    // Redaction fully off is the one level that leaves the mirror public.
    assert!(!plan.private);
}

#[test]
fn creation_marks_mirror_private_when_redacting() {
    let mut set = ActivitySet::new();
    set.insert(commit_activity("c1", "first work", 1704067200));
    let plan = creation_plan(RedactLevel::PrivateRepos, &source_repo(false), &set).unwrap();
    assert!(plan.private);
    assert_eq!(plan.name, "acme-lib");
}

#[test]
fn creation_hashed_names_the_digest() {
    let mut set = ActivitySet::new();
    set.insert(commit_activity("c1", "first work", 1704067200));
    let plan = creation_plan(RedactLevel::Hashed, &source_repo(false), &set).unwrap();
    assert_eq!(plan.name, sha1_smol::Sha1::from("acme-lib").digest().to_string());
}

#[test]
fn creation_rejects_encrypted_level() {
    let mut set = ActivitySet::new();
    set.insert(commit_activity("c1", "first work", 1704067200));
    let r = creation_plan(RedactLevel::Encrypted, &source_repo(false), &set);
    assert!(matches!(r, Err(ConfigError::EncryptedNotImplemented)));
}

#[test]
fn mirror_guard_skips_unrecognized_repository() {
    // The repository exists but its README lacks the marker: it must not
    // be touched.
    let readme = Some("# acme-lib\n\nan unrelated project".to_string());
    assert!(!should_sync_found(&readme));
    assert!(!should_sync_found(&None));
    let marked = Some(format!("intro\n\n{}", mirror_marker()));
    assert!(should_sync_found(&marked));
}

#[test]
fn resolution_state_machine() {
    assert_eq!(resolve_next(ResolveStep::CheckPrimary, LookupOutcome::Found), ResolveStep::UseFound);
    assert_eq!(
        resolve_next(ResolveStep::CheckPrimary, LookupOutcome::NotFound),
        ResolveStep::CheckFallback
    );
    assert_eq!(resolve_next(ResolveStep::CheckPrimary, LookupOutcome::Failed), ResolveStep::Skip);
    assert_eq!(resolve_next(ResolveStep::CheckFallback, LookupOutcome::Found), ResolveStep::UseFound);
    assert_eq!(resolve_next(ResolveStep::CheckFallback, LookupOutcome::NotFound), ResolveStep::Create);
    assert_eq!(resolve_next(ResolveStep::CheckFallback, LookupOutcome::Failed), ResolveStep::Skip);
}

#[test]
fn resolve_names_fallback_is_digest_form() {
    let names = resolve_names(RedactLevel::Off, &source_repo(false)).unwrap();
    assert_eq!(names.primary, "acme-lib");
    assert_eq!(names.fallback, sha1_smol::Sha1::from("acme-lib").digest().to_string());
    let hashed = resolve_names(RedactLevel::Hashed, &source_repo(false)).unwrap();
    assert_eq!(hashed.primary, hashed.fallback);
}

#[test]
fn push_only_when_new_commits_exist() {
    assert!(!should_push(0));
    assert!(should_push(1));
    assert!(should_push(7));
}

#[test]
fn issue_listing_helpers() {
    let page = vec![
        IssueRecord { title: "pr first".to_string(), created_at: 300, is_pull_request: true },
        IssueRecord { title: "newest issue".to_string(), created_at: 250, is_pull_request: false },
        IssueRecord { title: "older issue".to_string(), created_at: 100, is_pull_request: false },
    ];
    assert_eq!(first_real_issue(&page), Some(1));
    let real = keep_real_issues(page);
    assert_eq!(real.len(), 2);
    let titles = titles_of(&real);
    assert_eq!(titles, vec!["newest issue".to_string(), "older issue".to_string()]);

    let only_prs = vec![IssueRecord {
        title: "pr".to_string(),
        created_at: 1,
        is_pull_request: true,
    }];
    assert_eq!(first_real_issue(&only_prs), None);
}

#[test]
fn noreply_email_selection() {
    let emails = vec![
        "alice@example.com".to_string(),
        "12345+alice@users.noreply.github.com".to_string(),
        "67890+alice@users.noreply.github.com".to_string(),
    ];
    assert_eq!(
        pick_noreply_email(&emails),
        Some("12345+alice@users.noreply.github.com".to_string())
    );
    assert_eq!(pick_noreply_email(&vec!["alice@example.com".to_string()]), None);
}
