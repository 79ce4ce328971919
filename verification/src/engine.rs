//! Per-repository reconciliation decisions: resolving the mirror
//! repository (lookup, digest-form retry, mirror-guard), the creation plan
//! for a repository that does not exist yet, the replay watermark, and the
//! watermark filter. The surrounding binary performs each remote call and
//! feeds the outcome back; every decision between calls is made here.

use vstd::prelude::*;
use vstd::seq_lib::*;
use crate::activity::{Activity, ActivitySet, earliest_in};
use crate::config::{ConfigError, RedactLevel};
use crate::redact::{
    is_mirror_readme, marker_text, mirror_description_spec, mirror_marker, mirror_name,
    mirror_name_spec, mirror_private_spec, readme_is_mirror, sha1_hex, sha1_hex_of, target_name,
    target_name_spec,
};
use crate::text::ends_with;

verus! {

/// The replay watermark: how far history is already mirrored. It is the
/// newest of the mirror's last commit instant and, where one exists, its
/// last issue-creation instant — recomputed from observable mirror state
/// at the start of every pass, never persisted.
pub open spec fn watermark_spec(last_commit_ts: i64, last_issue_ts: Option<i64>) -> i64 {
    match last_issue_ts {
        Some(t) => if t > last_commit_ts {
            t
        } else {
            last_commit_ts
        },
        None => last_commit_ts,
    }
}

pub fn watermark(last_commit_ts: i64, last_issue_ts: Option<i64>) -> (r: i64)
    ensures
        r == watermark_spec(last_commit_ts, last_issue_ts),
{
    match last_issue_ts {
        Some(t) => if t > last_commit_ts {
            t
        } else {
            last_commit_ts
        },
        None => last_commit_ts,
    }
}

/// Occurring strictly after the watermark `wm`.
pub open spec fn newer_than(wm: i64) -> spec_fn(Activity) -> bool {
    |a: Activity| a.date > wm
}

/// Keep the activities strictly newer than the watermark: one exactly at
/// the watermark is assumed already mirrored.
pub fn filter_after(acts: Vec<Activity>, wm: i64) -> (r: Vec<Activity>)
    ensures
        r@ == acts@.filter(newer_than(wm)),
{
    let mut r: Vec<Activity> = Vec::new();
    let n = acts.len();
    let mut i: usize = 0;
    assert(acts@.take(0) =~= Seq::<Activity>::empty());
    assert(Seq::<Activity>::empty().filter(newer_than(wm)) == Seq::<Activity>::empty()) by {
        reveal(Seq::filter);
    }
    while i < n
        invariant
            i <= n,
            n == acts@.len(),
            r@ == acts@.take(i as int).filter(newer_than(wm)),
        decreases n - i,
    {
        if acts[i].date > wm {
            let x = acts[i].clone();
            r.push(x);
        }
        proof {
            acts@.take(i as int).lemma_filter_push(acts@[i as int], newer_than(wm));
            assert(acts@.take(i as int).push(acts@[i as int]) =~= acts@.take(i + 1));
        }
        i = i + 1;
    }
    proof {
        assert(acts@.take(n as int) =~= acts@);
    }
    r
}

/// An activity survives the watermark filter exactly when it was present
/// and occurred strictly after the watermark: one dated at the watermark
/// itself is excluded, one a second later is kept.
pub proof fn lemma_watermark_filtering(acts: Seq<Activity>, wm: i64, a: Activity)
    ensures
        acts.filter(newer_than(wm)).contains(a) <==> (acts.contains(a) && a.date > wm),
{
    broadcast use group_filter_ensures;

    let pred = newer_than(wm);
    if acts.filter(pred).contains(a) {
        let i = choose|i: int| 0 <= i < acts.filter(pred).len() && acts.filter(pred)[i] == a;
        assert(pred(acts.filter(pred)[i]));
        acts.lemma_filter_contains_rev(pred, a);
    }
    if acts.contains(a) && a.date > wm {
        let i = choose|i: int| 0 <= i < acts.len() && acts[i] == a;
        assert(acts.filter(pred).contains(acts[i]));
    }
}

/// What one remote repository lookup reported, as classified by the caller:
/// the repository exists, it plainly does not, or the lookup failed for any
/// other reason.
#[derive(Clone, Copy, Debug, PartialEq, Eq, Structural)]
pub enum LookupOutcome {
    Found,
    NotFound,
    Failed,
}

/// Where the resolution of one repository stands.
#[derive(Clone, Copy, Debug, PartialEq, Eq, Structural)]
pub enum ResolveStep {
    /// Look the mirror up under its primary name.
    CheckPrimary,
    /// The primary name was not found: look up the digest form once.
    CheckFallback,
    /// A lookup succeeded: verify the mirror marker before touching it.
    UseFound,
    /// Neither name exists: create the mirror.
    Create,
    /// A lookup failed: skip this repository, the run continues.
    Skip,
}

/// The resolution state machine of one repository: primary lookup, one
/// digest-form retry on "not found", creation when both are absent, and a
/// soft skip on any other failure.
pub open spec fn resolve_next_spec(step: ResolveStep, outcome: LookupOutcome) -> ResolveStep {
    match (step, outcome) {
        (ResolveStep::CheckPrimary, LookupOutcome::Found) => ResolveStep::UseFound,
        (ResolveStep::CheckPrimary, LookupOutcome::NotFound) => ResolveStep::CheckFallback,
        (ResolveStep::CheckPrimary, LookupOutcome::Failed) => ResolveStep::Skip,
        (ResolveStep::CheckFallback, LookupOutcome::Found) => ResolveStep::UseFound,
        (ResolveStep::CheckFallback, LookupOutcome::NotFound) => ResolveStep::Create,
        (ResolveStep::CheckFallback, LookupOutcome::Failed) => ResolveStep::Skip,
        (s, _) => s,
    }
}

pub fn resolve_next(step: ResolveStep, outcome: LookupOutcome) -> (r: ResolveStep)
    ensures
        r == resolve_next_spec(step, outcome),
{
    match (step, outcome) {
        (ResolveStep::CheckPrimary, LookupOutcome::Found) => ResolveStep::UseFound,
        (ResolveStep::CheckPrimary, LookupOutcome::NotFound) => ResolveStep::CheckFallback,
        (ResolveStep::CheckPrimary, LookupOutcome::Failed) => ResolveStep::Skip,
        (ResolveStep::CheckFallback, LookupOutcome::Found) => ResolveStep::UseFound,
        (ResolveStep::CheckFallback, LookupOutcome::NotFound) => ResolveStep::Create,
        (ResolveStep::CheckFallback, LookupOutcome::Failed) => ResolveStep::Skip,
        (s, _) => s,
    }
}

/// The two names a resolution pass may look a mirror up under: the primary
/// (redacted) name, and the digest form that covers mirrors created under a
/// redacted name whose plain form cannot be recovered.
pub struct ResolveNames {
    pub primary: String,
    pub fallback: String,
}

pub fn resolve_names(level: RedactLevel, repo: &crate::activity::Repository) -> (r: Result<
    ResolveNames,
    ConfigError,
>)
    ensures
        r is Err <==> level == RedactLevel::Encrypted,
        r is Err ==> r == Err::<ResolveNames, ConfigError>(ConfigError::EncryptedNotImplemented),
        r matches Ok(names) ==> {
            &&& names.primary@ == mirror_name_spec(
                level,
                target_name_spec(repo.owned_by_you, repo.owner@, repo.name@),
            )
            &&& names.fallback@ == sha1_hex_of(
                target_name_spec(repo.owned_by_you, repo.owner@, repo.name@),
            )
        },
{
    let tname = target_name(repo);
    let fallback = sha1_hex(tname.as_str());
    match mirror_name(level, tname.as_str()) {
        Ok(primary) => Ok(ResolveNames { primary, fallback }),
        Err(e) => Err(e),
    }
}

/// The mirror-guard: a found repository is only touched when its README is
/// present and ends, after trailing-whitespace trim, with the marker.
pub fn should_sync_found(readme: &Option<String>) -> (r: bool)
    ensures
        r == (readme matches Some(c) && is_mirror_readme(c@)),
{
    match readme {
        Some(c) => readme_is_mirror(c.as_str()),
        None => false,
    }
}

/// Everything needed to create a missing mirror: the remote repository
/// request, the marker README, and the initial commit dated at the
/// chronologically earliest activity.
pub struct CreationPlan {
    pub name: String,
    pub description: Option<String>,
    pub private: bool,
    pub readme: String,
    pub commit_subject: String,
    pub date: i64,
}

pub fn creation_plan(
    level: RedactLevel,
    repo: &crate::activity::Repository,
    acts: &ActivitySet,
) -> (r: Result<CreationPlan, ConfigError>)
    requires
        acts@.len() > 0,
    ensures
        r is Err <==> level == RedactLevel::Encrypted,
        r is Err ==> r == Err::<CreationPlan, ConfigError>(ConfigError::EncryptedNotImplemented),
        r matches Ok(p) ==> {
            &&& p.name@ == mirror_name_spec(
                level,
                target_name_spec(repo.owned_by_you, repo.owner@, repo.name@),
            )
            &&& (repo.description is None ==> p.description is None)
            &&& (repo.description matches Some(d) ==> (p.description matches Some(t) && t@
                == mirror_description_spec(level, d@)))
            &&& p.private == mirror_private_spec(level)
            &&& p.readme@ == marker_text()
            &&& p.commit_subject@ == "Initial commit"@
            &&& p.date == earliest_in(acts@).date
        },
{
    let tname = target_name(repo);
    let name = match mirror_name(level, tname.as_str()) {
        Ok(n) => n,
        Err(e) => {
            return Err(e);
        },
    };
    let description = match crate::redact::mirror_description(level, repo) {
        Ok(d) => d,
        Err(e) => {
            return Err(e);
        },
    };
    let private = !matches!(level, RedactLevel::Off);
    let earliest = match acts.earliest() {
        Some(a) => a,
        None => {
            // the set is non-empty, so an earliest activity always exists
            proof {
                assert(false);
            }
            return Err(ConfigError::InvalidRedactLevel);
        },
    };
    Ok(
        CreationPlan {
            name,
            description,
            private,
            readme: mirror_marker(),
            commit_subject: String::from_str("Initial commit"),
            date: earliest.date,
        },
    )
}

/// Push only when new local commits exist, and report how many.
pub fn should_push(unpushed: usize) -> (r: bool)
    ensures
        r == (unpushed > 0),
{
    unpushed > 0
}

/// One issue of the mirror as the destination forge lists it; the forge
/// exposes pull requests through the same collection, so each record says
/// which it is. `created_at` is in epoch seconds.
#[derive(Debug)]
pub struct IssueRecord {
    pub title: String,
    pub created_at: i64,
    pub is_pull_request: bool,
}

impl Clone for IssueRecord {
    fn clone(&self) -> (res: Self)
        ensures
            res == *self,
    {
        IssueRecord {
            title: self.title.clone(),
            created_at: self.created_at,
            is_pull_request: self.is_pull_request,
        }
    }
}

/// The first record of `page` that is a real issue, not a pull request —
/// the newest real issue when the page is listed newest first.
pub fn first_real_issue(page: &Vec<IssueRecord>) -> (r: Option<usize>)
    ensures
        r matches Some(i) ==> {
            &&& i < page@.len()
            &&& !page@[i as int].is_pull_request
            &&& forall|j: int| 0 <= j < i ==> page@[j].is_pull_request
        },
        r is None ==> forall|j: int| 0 <= j < page@.len() ==> page@[j].is_pull_request,
{
    let n = page.len();
    let mut i: usize = 0;
    while i < n
        invariant
            i <= n,
            n == page@.len(),
            forall|j: int| 0 <= j < i ==> page@[j].is_pull_request,
        decreases n - i,
    {
        if !page[i].is_pull_request {
            return Some(i);
        }
        i = i + 1;
    }
    None
}

/// Being a real issue, not a pull request.
pub open spec fn real_issue() -> spec_fn(IssueRecord) -> bool {
    |x: IssueRecord| !x.is_pull_request
}

/// Drop the pull requests from a listing, keeping real issues in order.
pub fn keep_real_issues(v: Vec<IssueRecord>) -> (r: Vec<IssueRecord>)
    ensures
        r@ == v@.filter(real_issue()),
{
    let mut r: Vec<IssueRecord> = Vec::new();
    let n = v.len();
    let mut i: usize = 0;
    assert(v@.take(0) =~= Seq::<IssueRecord>::empty());
    assert(Seq::<IssueRecord>::empty().filter(real_issue()) == Seq::<IssueRecord>::empty()) by {
        reveal(Seq::filter);
    }
    while i < n
        invariant
            i <= n,
            n == v@.len(),
            r@ == v@.take(i as int).filter(real_issue()),
        decreases n - i,
    {
        if !v[i].is_pull_request {
            let x = v[i].clone();
            r.push(x);
        }
        proof {
            v@.take(i as int).lemma_filter_push(v@[i as int], real_issue());
            assert(v@.take(i as int).push(v@[i as int]) =~= v@.take(i + 1));
        }
        i = i + 1;
    }
    proof {
        assert(v@.take(n as int) =~= v@);
    }
    r
}

/// The domain of the destination forge's no-reply addresses.
pub open spec fn noreply_suffix() -> Seq<char> {
    "@users.noreply.github.com"@
}

/// When the configuration names no commit email, the first listed account
/// email under the forge's no-reply domain is used; none found is a fatal
/// configuration gap the caller reports.
pub fn pick_noreply_email(emails: &Vec<String>) -> (r: Option<String>)
    ensures
        r matches Some(e) ==> (exists|i: int|
            0 <= i < emails@.len() && #[trigger] emails@[i]@ == e@ && ends_with(
                e@,
                noreply_suffix(),
            ) && (forall|j: int|
                0 <= j < i ==> !ends_with(#[trigger] emails@[j]@, noreply_suffix()))),
        r is None ==> forall|i: int|
            0 <= i < emails@.len() ==> !ends_with(#[trigger] emails@[i]@, noreply_suffix()),
{
    let n = emails.len();
    let mut i: usize = 0;
    while i < n
        invariant
            i <= n,
            n == emails@.len(),
            forall|j: int| 0 <= j < i ==> !ends_with(#[trigger] emails@[j]@, noreply_suffix()),
        decreases n - i,
    {
        if crate::text::str_ends_with(emails[i].as_str(), "@users.noreply.github.com") {
            return Some(emails[i].clone());
        }
        i = i + 1;
    }
    None
}

/// The titles of a listing, in order.
pub fn titles_of(v: &Vec<IssueRecord>) -> (r: Vec<String>)
    ensures
        r@.map_values(|s: String| s@) == v@.map_values(|x: IssueRecord| x.title@),
{
    let mut r: Vec<String> = Vec::new();
    let n = v.len();
    let mut i: usize = 0;
    while i < n
        invariant
            i <= n,
            n == v@.len(),
            r@.len() == i,
            forall|j: int| 0 <= j < i ==> r@[j]@ == v@[j].title@,
        decreases n - i,
    {
        r.push(v[i].title.clone());
        i = i + 1;
    }
    proof {
        assert(r@.map_values(|s: String| s@) =~= v@.map_values(|x: IssueRecord| x.title@));
    }
    r
}

} // verus!
