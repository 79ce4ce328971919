use github_activity_mirror::activity::{
    Activity, ActivityContent, ActivitySet, Commit, Issue, OpType, sort_activities,
};

fn commit_activity(sha1: &str, message: &str, date: i64, username: &str, email: &str) -> Activity {
    Activity {
        op_type: OpType::CommitRepo,
        date,
        content: ActivityContent::Commit(Commit {
            sha1: sha1.to_string(),
            message: message.to_string(),
            author_email: email.to_string(),
            author_name: username.to_string(),
            timestamp: date,
        }),
        source_link: format!("https://src.example/c/{}", sha1),
        username: username.to_string(),
        email: email.to_string(),
    }
}

fn issue_activity(id: u64, message: &str, date: i64) -> Activity {
    Activity {
        op_type: OpType::CreateIssue,
        date,
        content: ActivityContent::Issue(Issue { issue_id: id, message: message.to_string() }),
        source_link: format!("https://src.example/issues/{}", id),
        username: "alice".to_string(),
        email: "alice@example.com".to_string(),
    }
}

#[test]
fn fingerprint_ignores_actor_fields() {
    let a = commit_activity("abc", "fix bug", 100, "alice", "alice@example.com");
    let b = commit_activity("abc", "fix bug", 100, "alice2", "alice@users.noreply.example");
    assert!(a.same_event(&b));
}

#[test]
fn fingerprint_distinguishes_content() {
    let a = commit_activity("abc", "fix bug", 100, "alice", "a@b.c");
    let b = commit_activity("abd", "fix bug", 100, "alice", "a@b.c");
    let c = commit_activity("abc", "fix bug!", 100, "alice", "a@b.c");
    let d = commit_activity("abc", "fix bug", 101, "alice", "a@b.c");
    assert!(!a.same_event(&b));
    assert!(!a.same_event(&c));
    assert!(!a.same_event(&d));
}

#[test]
fn commit_and_issue_never_same_event() {
    let a = commit_activity("abc", "x", 100, "alice", "a@b.c");
    let b = issue_activity(1, "x", 100);
    assert!(!a.same_event(&b));
}

#[test]
fn issue_fingerprint_is_id_and_title() {
    let a = issue_activity(4, "crash on load", 100);
    let b = issue_activity(4, "crash on load", 999);
    let c = issue_activity(5, "crash on load", 100);
    assert!(a.same_event(&b));
    assert!(!a.same_event(&c));
}

#[test]
fn dedup_keeps_first_seen() {
    let mut set = ActivitySet::new();
    let first = commit_activity("abc", "fix bug", 100, "alice", "alice@example.com");
    let noreply = commit_activity("abc", "fix bug", 100, "alice", "alice@users.noreply.example");
    assert!(set.insert(first));
    assert!(!set.insert(noreply));
    assert_eq!(set.len(), 1);
    assert_eq!(set.get(0).email, "alice@example.com");
}

#[test]
fn dedup_admits_distinct_events() {
    let mut set = ActivitySet::new();
    assert!(set.insert(commit_activity("abc", "one", 100, "alice", "a@b.c")));
    assert!(set.insert(commit_activity("abd", "two", 200, "alice", "a@b.c")));
    assert!(set.insert(issue_activity(1, "two", 200)));
    assert_eq!(set.len(), 3);
}

#[test]
fn earliest_is_first_minimal() {
    let mut set = ActivitySet::new();
    set.insert(commit_activity("abc", "later", 300, "alice", "a@b.c"));
    set.insert(commit_activity("abd", "first", 100, "alice", "a@b.c"));
    set.insert(commit_activity("abe", "tied", 100, "alice", "a@b.c"));
    let earliest = set.earliest().unwrap();
    assert_eq!(earliest.date, 100);
    match earliest.content {
        ActivityContent::Commit(c) => assert_eq!(c.message, "first"),
        ActivityContent::Issue(_) => panic!("expected a commit"),
    }
}

#[test]
fn earliest_of_empty_is_none() {
    let set = ActivitySet::new();
    assert!(set.earliest().is_none());
}

#[test]
fn sorting_orders_by_date() {
    let v = vec![
        commit_activity("c3", "third", 300, "alice", "a@b.c"),
        commit_activity("c1", "first", 100, "alice", "a@b.c"),
        commit_activity("c2", "second", 200, "alice", "a@b.c"),
    ];
    let sorted = sort_activities(v);
    let dates: Vec<i64> = sorted.iter().map(|a| a.date).collect();
    assert_eq!(dates, vec![100, 200, 300]);
}

#[test]
fn sorting_keeps_all_records() {
    let v = vec![
        commit_activity("c1", "a", 200, "alice", "a@b.c"),
        commit_activity("c2", "b", 200, "alice", "a@b.c"),
        commit_activity("c3", "c", 100, "alice", "a@b.c"),
    ];
    let sorted = sort_activities(v);
    assert_eq!(sorted.len(), 3);
    let shas: Vec<String> = sorted
        .iter()
        .map(|a| match &a.content {
            ActivityContent::Commit(c) => c.sha1.clone(),
            ActivityContent::Issue(_) => panic!("expected a commit"),
        })
        .collect();
    assert!(shas.contains(&"c1".to_string()));
    assert!(shas.contains(&"c2".to_string()));
    assert!(shas.contains(&"c3".to_string()));
    assert_eq!(shas[0], "c3");
}
