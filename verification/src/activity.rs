//! The canonical representation of an activity pulled from a source forge,
//! its deduplication identity (the fingerprint), and the per-repository
//! activity set the engine replays from: deduplicated on insertion, ordered
//! ascending by occurrence time for replay.

use vstd::prelude::*;
use vstd::seq_lib::*;

verus! {

/// The operation kinds a source activity feed reports.
#[derive(Clone, Copy, Debug, PartialEq, Eq, Structural)]
pub enum OpType {
    CreateRepo,
    RenameRepo,
    StarRepo,
    WatchRepo,
    CommitRepo,
    CreateIssue,
    CreatePullRequest,
    TransferRepo,
    PushTag,
    CommentIssue,
    MergePullRequest,
    CloseIssue,
    ReopenIssue,
    ClosePullRequest,
    ReopenPullRequest,
    DeleteTag,
    DeleteBranch,
    MirrorSyncPush,
    MirrorSyncCreate,
    MirrorSyncDelete,
    ApprovePullRequest,
    RejectPullRequest,
    CommentPull,
    PublishRelease,
    PullReviewDismissed,
    PullRequestReadyForReview,
    AutoMergePullRequest,
}

/// A commit as mirrored: metadata and message only, no tree.
/// `timestamp` is in epoch seconds.
#[derive(Debug)]
pub struct Commit {
    pub sha1: String,
    pub message: String,
    pub author_email: String,
    pub author_name: String,
    pub timestamp: i64,
}

impl Clone for Commit {
    fn clone(&self) -> (res: Self)
        ensures
            res == *self,
    {
        Commit {
            sha1: self.sha1.clone(),
            message: self.message.clone(),
            author_email: self.author_email.clone(),
            author_name: self.author_name.clone(),
            timestamp: self.timestamp,
        }
    }
}

/// An issue as mirrored: its source-side id and title text.
#[derive(Debug)]
pub struct Issue {
    pub issue_id: u64,
    pub message: String,
}

impl Clone for Issue {
    fn clone(&self) -> (res: Self)
        ensures
            res == *self,
    {
        Issue { issue_id: self.issue_id, message: self.message.clone() }
    }
}

/// The content payload of an activity: a closed variant.
#[derive(Debug)]
pub enum ActivityContent {
    Commit(Commit),
    Issue(Issue),
}

impl Clone for ActivityContent {
    fn clone(&self) -> (res: Self)
        ensures
            res == *self,
    {
        match self {
            ActivityContent::Commit(c) => ActivityContent::Commit(c.clone()),
            ActivityContent::Issue(i) => ActivityContent::Issue(i.clone()),
        }
    }
}

/// One activity record. `date` is the occurrence instant in epoch seconds.
/// `username`, `email` and `source_link` are reported inconsistently by
/// source forges and are therefore excluded from the deduplication identity.
#[derive(Debug)]
pub struct Activity {
    pub op_type: OpType,
    pub date: i64,
    pub content: ActivityContent,
    pub source_link: String,
    pub username: String,
    pub email: String,
}

impl Clone for Activity {
    fn clone(&self) -> (res: Self)
        ensures
            res == *self,
    {
        Activity {
            op_type: self.op_type,
            date: self.date,
            content: self.content.clone(),
            source_link: self.source_link.clone(),
            username: self.username.clone(),
            email: self.email.clone(),
        }
    }
}

/// A source-side repository descriptor, used as a grouping key.
/// `created_date` is in epoch seconds.
#[derive(Debug)]
pub struct Repository {
    pub owned_by_you: bool,
    pub owner: String,
    pub name: String,
    pub description: Option<String>,
    pub full_name: String,
    pub html_url: String,
    pub clone_url: String,
    pub private: bool,
    pub created_date: i64,
}

impl Clone for Repository {
    fn clone(&self) -> (res: Self)
        ensures
            res == *self,
    {
        Repository {
            owned_by_you: self.owned_by_you,
            owner: self.owner.clone(),
            name: self.name.clone(),
            description: match &self.description {
                Some(d) => Some(d.clone()),
                None => None,
            },
            full_name: self.full_name.clone(),
            html_url: self.html_url.clone(),
            clone_url: self.clone_url.clone(),
            private: self.private,
            created_date: self.created_date,
        }
    }
}

/// The grouping identity of repository descriptors: full structural
/// equality — two descriptors differing in any field, the description
/// included, are distinct groups.
pub open spec fn same_repository(a: Repository, b: Repository) -> bool {
    &&& a.owned_by_you == b.owned_by_you
    &&& a.owner@ == b.owner@
    &&& a.name@ == b.name@
    &&& match (a.description, b.description) {
        (Some(x), Some(y)) => x@ == y@,
        (None, None) => true,
        _ => false,
    }
    &&& a.full_name@ == b.full_name@
    &&& a.html_url@ == b.html_url@
    &&& a.clone_url@ == b.clone_url@
    &&& a.private == b.private
    &&& a.created_date == b.created_date
}

impl Repository {
    /// Whether `self` and `other` name the same group.
    pub fn same_as(&self, other: &Repository) -> (r: bool)
        ensures
            r == same_repository(*self, *other),
    {
        let desc_eq = match (&self.description, &other.description) {
            (Some(x), Some(y)) => *x == *y,
            (None, None) => true,
            _ => false,
        };
        self.owned_by_you == other.owned_by_you && self.owner == other.owner && self.name
            == other.name && desc_eq && self.full_name == other.full_name && self.html_url
            == other.html_url && self.clone_url == other.clone_url && self.private
            == other.private && self.created_date == other.created_date
    }
}

/// The deduplication identity: two activities are the same underlying event
/// exactly when their operation kinds match and their content fingerprints
/// match — commit: message, sha1 and timestamp; issue: id and title.
/// Actor fields and the source link take no part.
pub open spec fn same_fingerprint(a: Activity, b: Activity) -> bool {
    &&& a.op_type == b.op_type
    &&& match (a.content, b.content) {
        (ActivityContent::Commit(c1), ActivityContent::Commit(c2)) => {
            &&& c1.message@ == c2.message@
            &&& c1.sha1@ == c2.sha1@
            &&& c1.timestamp == c2.timestamp
        },
        (ActivityContent::Issue(i1), ActivityContent::Issue(i2)) => {
            &&& i1.message@ == i2.message@
            &&& i1.issue_id == i2.issue_id
        },
        _ => false,
    }
}

/// Some activity of `s` is the same event as `a`.
pub open spec fn spec_contains_event(s: Seq<Activity>, a: Activity) -> bool {
    exists|i: int| 0 <= i < s.len() && #[trigger] same_fingerprint(s[i], a)
}

/// No two activities of `s` are the same event.
pub open spec fn distinct_fingerprints(s: Seq<Activity>) -> bool {
    forall|i: int, j: int|
        0 <= i < j < s.len() ==> !#[trigger] same_fingerprint(s[i], s[j])
}

impl Activity {
    /// Whether `self` and `other` are the same underlying event.
    pub fn same_event(&self, other: &Activity) -> (r: bool)
        ensures
            r == same_fingerprint(*self, *other),
    {
        if self.op_type != other.op_type {
            return false;
        }
        match (&self.content, &other.content) {
            (ActivityContent::Commit(c1), ActivityContent::Commit(c2)) => {
                c1.message == c2.message && c1.sha1 == c2.sha1 && c1.timestamp == c2.timestamp
            },
            (ActivityContent::Issue(i1), ActivityContent::Issue(i2)) => {
                i1.message == i2.message && i1.issue_id == i2.issue_id
            },
            _ => false,
        }
    }
}

/// Two commit activities identical in sha1, message and timestamp are the
/// same event, whatever their actor fields and source links say; in
/// particular each deduplicated set holds one exactly when it holds the
/// other.
pub proof fn lemma_fingerprint_ignores_actor(a: Activity, b: Activity, c1: Commit, c2: Commit)
    requires
        a.op_type == b.op_type,
        a.content == ActivityContent::Commit(c1),
        b.content == ActivityContent::Commit(c2),
        c1.message@ == c2.message@,
        c1.sha1@ == c2.sha1@,
        c1.timestamp == c2.timestamp,
    ensures
        same_fingerprint(a, b),
        forall|s: Seq<Activity>|
            #[trigger] spec_contains_event(s, a) <==> spec_contains_event(s, b),
{
    assert forall|s: Seq<Activity>|
        #[trigger] spec_contains_event(s, a) <==> spec_contains_event(s, b) by {
        if spec_contains_event(s, a) {
            let i = choose|i: int| 0 <= i < s.len() && #[trigger] same_fingerprint(s[i], a);
            assert(same_fingerprint(s[i], b));
        }
        if spec_contains_event(s, b) {
            let i = choose|i: int| 0 <= i < s.len() && #[trigger] same_fingerprint(s[i], b);
            assert(same_fingerprint(s[i], a));
        }
    }
}

/// A per-repository set of activities, deduplicated by fingerprint as
/// records stream in; the first record seen for an event is the one kept.
#[derive(Debug)]
pub struct ActivitySet {
    items: Vec<Activity>,
}

impl View for ActivitySet {
    type V = Seq<Activity>;

    closed spec fn view(&self) -> Seq<Activity> {
        self.items@
    }
}

impl ActivitySet {
    /// The set never holds two records of the same event.
    pub open spec fn wf(&self) -> bool {
        distinct_fingerprints(self@)
    }

    pub fn new() -> (r: ActivitySet)
        ensures
            r@ == Seq::<Activity>::empty(),
            r.wf(),
    {
        ActivitySet { items: Vec::new() }
    }

    pub fn len(&self) -> (r: usize)
        ensures
            r == self@.len(),
    {
        self.items.len()
    }

    pub fn get(&self, i: usize) -> (r: &Activity)
        requires
            i < self@.len(),
        ensures
            *r == self@[i as int],
    {
        &self.items[i]
    }

    /// Whether some record of the same event is already present.
    pub fn contains_event(&self, a: &Activity) -> (r: bool)
        ensures
            r == spec_contains_event(self@, *a),
    {
        let n = self.items.len();
        let mut i: usize = 0;
        while i < n
            invariant
                i <= n,
                n == self@.len(),
                forall|j: int| 0 <= j < i ==> !#[trigger] same_fingerprint(self@[j], *a),
            decreases n - i,
        {
            if self.items[i].same_event(a) {
                return true;
            }
            i = i + 1;
        }
        false
    }

    /// Insert a record unless a record of the same event was already seen;
    /// the earlier record wins, absorbing actor-field churn between
    /// otherwise identical reports.
    pub fn insert(&mut self, a: Activity) -> (added: bool)
        requires
            old(self).wf(),
        ensures
            final(self).wf(),
            spec_contains_event(old(self)@, a) ==> !added && final(self)@ == old(self)@,
            !spec_contains_event(old(self)@, a) ==> added && final(self)@ == old(self)@.push(a),
    {
        if self.contains_event(&a) {
            false
        } else {
            self.items.push(a);
            true
        }
    }

    /// Move the records out, in insertion order.
    pub fn into_vec(self) -> (r: Vec<Activity>)
        ensures
            r@ == self@,
    {
        self.items
    }

    /// The first record carrying the minimal occurrence time, the one the
    /// initial mirror commit is dated at.
    pub fn earliest(&self) -> (r: Option<Activity>)
        ensures
            self@.len() == 0 ==> r is None,
            self@.len() > 0 ==> r == Some(earliest_in(self@)),
    {
        let n = self.items.len();
        if n == 0 {
            return None;
        }
        let mut best: usize = 0;
        let mut i: usize = 1;
        assert(self@.take(1) =~= seq![self@[0]]);
        while i < n
            invariant
                1 <= i <= n,
                best < i,
                n == self@.len(),
                self@[best as int] == earliest_in(self@.take(i as int)),
            decreases n - i,
        {
            proof {
                lemma_earliest_push(self@.take(i as int), self@[i as int]);
                assert(self@.take(i as int).push(self@[i as int]) =~= self@.take(i + 1));
            }
            if self.items[i].date < self.items[best].date {
                best = i;
            }
            i = i + 1;
        }
        proof {
            assert(self@.take(n as int) =~= self@);
        }
        Some(self.items[best].clone())
    }
}

/// The first record of `s` carrying the minimal `date`.
pub open spec fn earliest_in(s: Seq<Activity>) -> Activity
    recommends
        s.len() > 0,
    decreases s.len(),
{
    if s.len() <= 1 {
        s[0]
    } else {
        let rest = earliest_in(s.drop_first());
        if s[0].date <= rest.date {
            s[0]
        } else {
            rest
        }
    }
}

proof fn lemma_earliest_push(s: Seq<Activity>, x: Activity)
    requires
        s.len() > 0,
    ensures
        earliest_in(s.push(x)) == (if earliest_in(s).date <= x.date {
            earliest_in(s)
        } else {
            x
        }),
    decreases s.len(),
{
    if s.len() == 1 {
        assert(s.push(x).drop_first() =~= seq![x]);
        assert(earliest_in(s.push(x).drop_first()) == x);
        assert(s.push(x)[0] == s[0]);
    } else {
        assert(s.push(x).drop_first() =~= s.drop_first().push(x));
        lemma_earliest_push(s.drop_first(), x);
        assert(s.push(x)[0] == s[0]);
    }
}

/// Occurrence times never decrease along `s`.
pub open spec fn sorted_by_date(s: Seq<Activity>) -> bool {
    forall|i: int, j: int| 0 <= i <= j < s.len() ==> s[i].date <= s[j].date
}

/// The records of `v`, reordered ascending by occurrence time.
pub fn sort_activities(v: Vec<Activity>) -> (r: Vec<Activity>)
    ensures
        sorted_by_date(r@),
        r@.to_multiset() == v@.to_multiset(),
        r@.len() == v@.len(),
{
    let mut r: Vec<Activity> = Vec::new();
    let n = v.len();
    let mut i: usize = 0;
    assert(v@.take(0) =~= Seq::<Activity>::empty());
    assert(Seq::<Activity>::empty().to_multiset() =~= r@.to_multiset());
    while i < n
        invariant
            i <= n,
            n == v@.len(),
            r@.len() == i,
            sorted_by_date(r@),
            r@.to_multiset() == v@.take(i as int).to_multiset(),
        decreases n - i,
    {
        let x = v[i].clone();
        let mut j: usize = r.len();
        while j > 0 && r[j - 1].date > x.date
            invariant
                j <= r@.len(),
                forall|k: int| j <= k < r@.len() ==> r@[k].date > x.date,
            decreases j,
        {
            j = j - 1;
        }
        let ghost r0 = r@;
        r.insert(j, x);
        proof {
            assert(r@ == r0.insert(j as int, x));
            assert forall|p: int, q: int| 0 <= p <= q < r@.len() implies r@[p].date
                <= r@[q].date by {
                if p < j {
                    assert(r@[p] == r0[p]);
                    assert(r0[p].date <= x.date);
                }
                if q > j {
                    assert(r@[q] == r0[q - 1]);
                }
                if p == j {
                    assert(r@[p] == x);
                }
                if q == j {
                    assert(r@[q] == x);
                }
            }
            to_multiset_insert(r0, j as int, x);
            to_multiset_build(v@.take(i as int), v@[i as int]);
            assert(v@.take(i as int).push(v@[i as int]) =~= v@.take(i + 1));
        }
        i = i + 1;
    }
    proof {
        assert(v@.take(n as int) =~= v@);
        to_multiset_len(r@);
        to_multiset_len(v@);
    }
    r
}

} // verus!
