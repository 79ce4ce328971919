//! The decision core of a source adapter: classifying feed records,
//! parsing the compact issue-activity encoding, building canonical
//! activities and repository descriptors from the plain fields a feed
//! reports, and the backfill acceptance rule. Fetching the feed itself is
//! I/O and lives outside the library; URL composition is delegated to the
//! url crate behind trusted wrappers.

use vstd::prelude::*;
use crate::activity::{
    Activity, ActivityContent, ActivitySet, Commit, Issue, OpType, Repository, same_repository,
    spec_contains_event,
};
use crate::text::{dec_of, lower_of, lowercase, parse_u64, parse_u64_spec, split_all, split_spec,
    trim_spec, trim_str, u64_to_dec, lemma_split_len};

verus! {

/// What the engine does with one activity-feed record, by operation kind:
/// replay its commits, replay its issue creation, or nothing yet.
#[derive(Clone, Copy, Debug, PartialEq, Eq, Structural)]
pub enum FeedKind {
    Commits,
    IssueCreated,
    Unsupported,
}

pub open spec fn feed_kind_spec(op: OpType) -> FeedKind {
    match op {
        OpType::CommitRepo => FeedKind::Commits,
        OpType::CreateIssue => FeedKind::IssueCreated,
        _ => FeedKind::Unsupported,
    }
}

pub fn feed_kind(op: OpType) -> (r: FeedKind)
    ensures
        r == feed_kind_spec(op),
{
    match op {
        OpType::CommitRepo => FeedKind::Commits,
        OpType::CreateIssue => FeedKind::IssueCreated,
        _ => FeedKind::Unsupported,
    }
}

/// Parse the compact issue-activity encoding `id|title`: the id before the
/// first separator, the title between the first and second. A record whose
/// id is malformed or zero is dropped (`None`); a missing title is empty.
pub fn parse_issue_content(s: &str) -> (r: Option<(u64, String)>)
    ensures
        ({
            let parts = split_spec(s@, '|');
            let idr = parse_u64_spec(parts[0]);
            &&& (r is None <==> (idr is None || idr == Some(0u64)))
            &&& (r matches Some(p) ==> {
                &&& Some(p.0) == idr
                &&& p.0 != 0
                &&& p.1@ == (if parts.len() > 1 {
                    parts[1]
                } else {
                    Seq::<char>::empty()
                })
            })
        }),
{
    proof {
        lemma_split_len(s@, '|');
    }
    let parts = split_all(s, '|');
    let id = match parse_u64(parts[0].as_str()) {
        Some(v) => v,
        None => {
            return None;
        },
    };
    if id == 0 {
        return None;
    }
    let title = if parts.len() > 1 {
        parts[1].clone()
    } else {
        String::new()
    };
    Some((id, title))
}

/// One account as a source feed reports it, where the engine reads only
/// the email and the username.
#[derive(Debug)]
pub struct SourceUser {
    pub email: String,
    pub username: String,
}

impl Clone for SourceUser {
    fn clone(&self) -> (res: Self)
        ensures
            res == *self,
    {
        SourceUser { email: self.email.clone(), username: self.username.clone() }
    }
}

/// The canonical activity for one commit of a feed's push record: a commit
/// activity dated at the commit's own timestamp, its message trimmed.
pub fn commit_from_feed(
    sha1: String,
    message: &str,
    author_email: String,
    author_name: String,
    timestamp: i64,
    source_link: String,
) -> (r: Activity)
    ensures
        r.op_type == OpType::CommitRepo,
        r.date == timestamp,
        r.source_link == source_link,
        r.username == author_name,
        r.email == author_email,
        r.content matches ActivityContent::Commit(c) && {
            &&& c.sha1 == sha1
            &&& c.message@ == trim_spec(message@)
            &&& c.author_email == author_email
            &&& c.author_name == author_name
            &&& c.timestamp == timestamp
        },
{
    let content = ActivityContent::Commit(
        Commit {
            sha1,
            message: trim_str(message),
            author_email: author_email.clone(),
            author_name: author_name.clone(),
            timestamp,
        },
    );
    Activity {
        op_type: OpType::CommitRepo,
        date: timestamp,
        content,
        username: author_name,
        email: author_email,
        source_link,
    }
}

/// The canonical activity for one commit read back from a repository's
/// history during backfill: the commit author where the feed attached an
/// account, else the recorded author fields.
pub fn commit_from_history(
    sha: String,
    message: &str,
    created: i64,
    author: &Option<SourceUser>,
    fallback_email: &str,
    fallback_name: &str,
    source_link: String,
) -> (r: Activity)
    ensures
        r.op_type == OpType::CommitRepo,
        r.date == created,
        r.source_link == source_link,
        author matches Some(u) ==> r.email@ == u.email@ && r.username@ == u.username@,
        author is None ==> r.email@ == fallback_email@ && r.username@ == fallback_name@,
        r.content matches ActivityContent::Commit(c) && {
            &&& c.sha1 == sha
            &&& c.message@ == trim_spec(message@)
            &&& c.author_email@ == r.email@
            &&& c.author_name@ == r.username@
            &&& c.timestamp == created
        },
{
    let (author_email, author_name) = match author {
        Some(u) => (u.email.clone(), u.username.clone()),
        None => (String::from_str(fallback_email), String::from_str(fallback_name)),
    };
    let content = ActivityContent::Commit(
        Commit {
            sha1: sha,
            message: trim_str(message),
            author_email: author_email.clone(),
            author_name: author_name.clone(),
            timestamp: created,
        },
    );
    Activity {
        op_type: OpType::CommitRepo,
        date: created,
        content,
        username: author_name,
        email: author_email,
        source_link,
    }
}

/// The canonical activity for an issue-creation record.
pub fn issue_activity(
    issue_id: u64,
    title: String,
    date: i64,
    username: String,
    email: String,
    source_link: String,
) -> (r: Activity)
    ensures
        r.op_type == OpType::CreateIssue,
        r.date == date,
        r.source_link == source_link,
        r.username == username,
        r.email == email,
        r.content matches ActivityContent::Issue(i) && i.issue_id == issue_id && i.message
            == title,
{
    Activity {
        op_type: OpType::CreateIssue,
        date,
        content: ActivityContent::Issue(Issue { issue_id, message: title }),
        username,
        email,
        source_link,
    }
}

/// The canonical repository descriptor for a feed's repository record: the
/// repository counts as the operator's own when the configured username
/// and the owner's username agree after lowercasing, and an empty
/// description counts as none.
pub fn source_repository(
    self_username: &str,
    owner: String,
    name: String,
    full_name: String,
    description: String,
    html_url: String,
    clone_url: String,
    private: bool,
    created_at: i64,
) -> (r: Repository)
    ensures
        r.owned_by_you == (lower_of(self_username@) == lower_of(owner@)),
        r.owner == owner,
        r.name == name,
        r.full_name == full_name,
        description@.len() == 0 ==> r.description is None,
        description@.len() > 0 ==> r.description == Some(description),
        r.html_url == html_url,
        r.clone_url == clone_url,
        r.private == private,
        r.created_date == created_at,
{
    let lu = lowercase(self_username);
    let lo = lowercase(owner.as_str());
    let owned_by_you = lu == lo;
    let description = if description.as_str().is_empty() {
        None
    } else {
        Some(description)
    };
    Repository {
        owned_by_you,
        owner,
        name,
        description,
        full_name,
        html_url,
        clone_url,
        private,
        created_date: created_at,
    }
}

/// The backfill acceptance rule: a commit read back from history joins the
/// set only when no record of the same event is present and its author's
/// lowercased username is the configured username.
pub fn backfill_insert(set: &mut ActivitySet, a: Activity, self_username: &str) -> (added: bool)
    requires
        old(set).wf(),
    ensures
        final(set).wf(),
        added <==> (!spec_contains_event(old(set)@, a) && lower_of(a.username@)
            == self_username@),
        added ==> final(set)@ == old(set)@.push(a),
        !added ==> final(set)@ == old(set)@,
{
    let lu = lowercase(a.username.as_str());
    let su = String::from_str(self_username);
    if lu == su {
        set.insert(a)
    } else {
        false
    }
}

/// One repository's slot in the grouped feed: the descriptor and its
/// deduplicated activities.
#[derive(Debug)]
pub struct RepoEntry {
    pub repo: Repository,
    pub set: ActivitySet,
}

/// What a source adapter produces: activities grouped by repository
/// descriptor, one slot per distinct descriptor, each slot deduplicated by
/// fingerprint.
#[derive(Debug)]
pub struct SourceActivities {
    entries: Vec<RepoEntry>,
}

impl View for SourceActivities {
    type V = Seq<RepoEntry>;

    closed spec fn view(&self) -> Seq<RepoEntry> {
        self.entries@
    }
}

impl SourceActivities {
    /// No two slots name the same repository, and every slot's activity
    /// set is deduplicated.
    pub open spec fn wf(&self) -> bool {
        &&& forall|i: int, j: int|
            0 <= i < j < self@.len() ==> !#[trigger] same_repository(
                self@[i].repo,
                self@[j].repo,
            )
        &&& forall|i: int| 0 <= i < self@.len() ==> (#[trigger] self@[i]).set.wf()
    }

    pub fn new() -> (r: SourceActivities)
        ensures
            r@ == Seq::<RepoEntry>::empty(),
            r.wf(),
    {
        SourceActivities { entries: Vec::new() }
    }

    pub fn len(&self) -> (r: usize)
        ensures
            r == self@.len(),
    {
        self.entries.len()
    }

    /// The slot of a repository, if one exists: the first (and only) index
    /// whose descriptor matches.
    pub fn find_repo(&self, repo: &Repository) -> (r: Option<usize>)
        ensures
            r matches Some(j) ==> {
                &&& j < self@.len()
                &&& same_repository(self@[j as int].repo, *repo)
                &&& forall|k: int|
                    0 <= k < j ==> !#[trigger] same_repository(self@[k].repo, *repo)
            },
            r is None ==> forall|k: int|
                0 <= k < self@.len() ==> !#[trigger] same_repository(self@[k].repo, *repo),
    {
        let n = self.entries.len();
        let mut i: usize = 0;
        while i < n
            invariant
                i <= n,
                n == self@.len(),
                forall|k: int| 0 <= k < i ==> !#[trigger] same_repository(self@[k].repo, *repo),
            decreases n - i,
        {
            if self.entries[i].repo.same_as(repo) {
                return Some(i);
            }
            i = i + 1;
        }
        None
    }

    /// Record one activity under its repository: a matching slot absorbs
    /// it (the first record of an event wins), a new repository gets a
    /// fresh slot at the end. Returns the slot used.
    pub fn add(&mut self, repo: Repository, a: Activity) -> (j: usize)
        requires
            old(self).wf(),
        ensures
            final(self).wf(),
            j < final(self)@.len(),
            (forall|k: int|
                0 <= k < old(self)@.len() ==> !#[trigger] same_repository(
                    old(self)@[k].repo,
                    repo,
                )) ==> {
                &&& j == old(self)@.len()
                &&& final(self)@.len() == old(self)@.len() + 1
                &&& forall|k: int| 0 <= k < old(self)@.len() ==> final(self)@[k] == old(self)@[k]
                &&& same_repository(final(self)@[j as int].repo, repo)
                &&& final(self)@[j as int].set@ == seq![a]
            },
            (exists|k: int|
                0 <= k < old(self)@.len() && #[trigger] same_repository(
                    old(self)@[k].repo,
                    repo,
                )) ==> {
                &&& final(self)@.len() == old(self)@.len()
                &&& j < old(self)@.len()
                &&& same_repository(old(self)@[j as int].repo, repo)
                &&& forall|k: int|
                    0 <= k < old(self)@.len() && k != j ==> final(self)@[k] == old(self)@[k]
                &&& final(self)@[j as int].repo == old(self)@[j as int].repo
                &&& final(self)@[j as int].set@ == (if spec_contains_event(
                    old(self)@[j as int].set@,
                    a,
                ) {
                    old(self)@[j as int].set@
                } else {
                    old(self)@[j as int].set@.push(a)
                })
            },
    {
        let ghost s0 = self@;
        match self.find_repo(&repo) {
            Some(j) => {
                let mut entry = self.entries.remove(j);
                entry.set.insert(a);
                self.entries.insert(j, entry);
                proof {
                    assert forall|k: int| 0 <= k < s0.len() && k != j implies final(self)@[k]
                        == s0[k] by {
                        if k < j {
                            assert(final(self)@[k] == s0.remove(j as int)[k]);
                        } else {
                            assert(s0.remove(j as int)[k - 1] == s0[k]);
                        }
                    }
                }
                j
            },
            None => {
                let mut set = ActivitySet::new();
                set.insert(a);
                let j = self.entries.len();
                self.entries.push(RepoEntry { repo, set });
                proof {
                    assert(final(self)@[j as int].set@ =~= seq![a]);
                }
                j
            },
        }
    }

    /// Record one commit read back from history under slot `j`, subject to
    /// the backfill acceptance rule.
    pub fn backfill_at(&mut self, j: usize, a: Activity, self_username: &str) -> (added: bool)
        requires
            old(self).wf(),
            j < old(self)@.len(),
        ensures
            final(self).wf(),
            final(self)@.len() == old(self)@.len(),
            forall|k: int|
                0 <= k < old(self)@.len() && k != j ==> final(self)@[k] == old(self)@[k],
            final(self)@[j as int].repo == old(self)@[j as int].repo,
            added <==> (!spec_contains_event(old(self)@[j as int].set@, a) && lower_of(
                a.username@,
            ) == self_username@),
            added ==> final(self)@[j as int].set@ == old(self)@[j as int].set@.push(a),
            !added ==> final(self)@[j as int].set@ == old(self)@[j as int].set@,
    {
        let ghost s0 = self@;
        let mut entry = self.entries.remove(j);
        let added = backfill_insert(&mut entry.set, a, self_username);
        self.entries.insert(j, entry);
        proof {
            assert forall|k: int| 0 <= k < s0.len() && k != j implies final(self)@[k]
                == s0[k] by {
                if k < j {
                    assert(final(self)@[k] == s0.remove(j as int)[k]);
                } else {
                    assert(s0.remove(j as int)[k - 1] == s0[k]);
                }
            }
        }
        added
    }

    /// Hand the slots out, in the order the repositories were first seen.
    pub fn into_entries(self) -> (r: Vec<RepoEntry>)
        ensures
            r@ == self@,
    {
        self.entries
    }
}

/// The result the url crate computes when the two path segments are
/// appended to the base URL, `None` where the base does not parse or
/// cannot carry segments; a function of the three texts alone.
pub uninterp spec fn url_segments_of(base: Seq<char>, seg1: Seq<char>, seg2: Seq<char>) -> Option<
    Seq<char>,
>;

/// Relies on url::Url::parse and PathSegmentsMut::push: parsing the base
/// and appending the two segments depends on the three texts alone.
#[verifier::external_body]
fn url_push_segments(base: &str, seg1: &str, seg2: &str) -> (r: Option<String>)
    ensures
        r is Some <==> url_segments_of(base@, seg1@, seg2@) is Some,
        r matches Some(u) ==> Some(u@) == url_segments_of(base@, seg1@, seg2@),
{
    let mut u = url::Url::parse(base).ok()?;
    u.path_segments_mut().ok()?.push(seg1).push(seg2);
    Some(String::from(u.as_str()))
}

/// The result the url crate computes when `rel` is resolved against
/// `base`, `None` where either fails; a function of the two texts alone.
pub uninterp spec fn url_join_of(base: Seq<char>, rel: Seq<char>) -> Option<Seq<char>>;

/// Relies on url::Url::parse and Url::join: resolving a relative reference
/// against a base depends on the two texts alone.
#[verifier::external_body]
fn url_join(base: &str, rel: &str) -> (r: Option<String>)
    ensures
        r is Some <==> url_join_of(base@, rel@) is Some,
        r matches Some(u) ==> Some(u@) == url_join_of(base@, rel@),
{
    let u = url::Url::parse(base).ok()?.join(rel).ok()?;
    Some(String::from(u.as_str()))
}

/// The source link recorded for a backfilled commit: the repository page
/// with `commit/{sha1}` appended.
pub fn commit_source_link(html_url: &str, sha1: &str) -> (r: Option<String>)
    ensures
        r is Some <==> url_segments_of(html_url@, "commit"@, sha1@) is Some,
        r matches Some(u) ==> Some(u@) == url_segments_of(html_url@, "commit"@, sha1@),
{
    url_push_segments(html_url, "commit", sha1)
}

/// The source link recorded for an issue activity: `issues/{id}` resolved
/// against the repository page.
pub fn issue_source_link(html_url: &str, issue_id: u64) -> (r: Option<String>)
    ensures
        r is Some <==> url_join_of(html_url@, "issues/"@ + dec_of(issue_id as nat)) is Some,
        r matches Some(u) ==> Some(u@) == url_join_of(
            html_url@,
            "issues/"@ + dec_of(issue_id as nat),
        ),
{
    let mut rel = String::from_str("issues/");
    let id = u64_to_dec(issue_id);
    rel.append(id.as_str());
    proof {
        assert(rel@ =~= "issues/"@ + dec_of(issue_id as nat));
    }
    url_join(html_url, rel.as_str())
}

} // verus!
