//! Replay planning: from the filtered, ordered activities and the mirror's
//! already-existing issue titles, the exact sequence of actions to perform —
//! one commit per commit activity, one issue per issue activity whose
//! (redacted, capped) title is not already present, with intra-run
//! duplicates prevented by carrying every planned title forward.

use vstd::prelude::*;
use vstd::seq_lib::*;
use crate::activity::{Activity, ActivityContent};
use crate::config::{ConfigError, RedactLevel};
use crate::engine::newer_than;
use crate::redact::{
    commit_body_spec, commit_subject_spec, issue_body_spec, issue_title_spec, redact_commit_body,
    redact_commit_subject, redact_issue_body, redact_issue_title,
};

verus! {

/// The mathematical form of one replay action.
pub ghost enum SpecAction {
    Commit { subject: Seq<char>, body: Seq<char>, date: i64 },
    NewIssue { title: Seq<char>, body: Seq<char>, date: i64 },
}

/// One action of a replay plan. A commit action carries the published
/// subject and file body and the instant both commit dates are forced to;
/// an issue action carries the published title and body.
#[derive(Debug)]
pub enum ReplayAction {
    Commit { subject: String, body: String, date: i64 },
    NewIssue { title: String, body: String, date: i64 },
}

impl View for ReplayAction {
    type V = SpecAction;

    open spec fn view(&self) -> SpecAction {
        match self {
            ReplayAction::Commit { subject, body, date } => SpecAction::Commit {
                subject: subject@,
                body: body@,
                date: *date,
            },
            ReplayAction::NewIssue { title, body, date } => SpecAction::NewIssue {
                title: title@,
                body: body@,
                date: *date,
            },
        }
    }
}

/// The mathematical form of a plan.
pub open spec fn plan_views(plan: Seq<ReplayAction>) -> Seq<SpecAction> {
    plan.map_values(|x: ReplayAction| x@)
}

/// The set of title texts in a list of titles.
pub open spec fn title_set(titles: Seq<String>) -> Set<Seq<char>> {
    titles.map_values(|t: String| t@).to_set()
}

proof fn lemma_title_set_contains(titles: Seq<String>, x: Seq<char>)
    ensures
        title_set(titles).contains(x) <==> (exists|j: int|
            0 <= j < titles.len() && #[trigger] titles[j]@ == x),
{
    broadcast use vstd::set::group_set_axioms;

    let m = titles.map_values(|t: String| t@);
    if title_set(titles).contains(x) {
        let j = choose|j: int| 0 <= j < m.len() && m[j] == x;
        assert(titles[j]@ == x);
    }
    if exists|j: int| 0 <= j < titles.len() && #[trigger] titles[j]@ == x {
        let j = choose|j: int| 0 <= j < titles.len() && #[trigger] titles[j]@ == x;
        assert(m[j] == x);
        assert(m.contains(x));
    }
}

proof fn lemma_title_set_push(titles: Seq<String>, t: String)
    ensures
        title_set(titles.push(t)) == title_set(titles).insert(t@),
{
    broadcast use vstd::set::group_set_axioms;

    assert forall|x: Seq<char>|
        title_set(titles.push(t)).contains(x) == title_set(titles).insert(t@).contains(x) by {
        lemma_title_set_contains(titles.push(t), x);
        lemma_title_set_contains(titles, x);
        if exists|j: int| 0 <= j < titles.len() && #[trigger] titles[j]@ == x {
            let j = choose|j: int| 0 <= j < titles.len() && #[trigger] titles[j]@ == x;
            assert(titles.push(t)[j]@ == x);
        }
        if x == t@ {
            assert(titles.push(t)[titles.len() as int]@ == x);
        }
        if exists|j: int| 0 <= j < titles.push(t).len() && #[trigger] titles.push(t)[j]@ == x {
            let j = choose|j: int|
                0 <= j < titles.push(t).len() && #[trigger] titles.push(t)[j]@ == x;
            if j < titles.len() {
                assert(titles[j]@ == x);
            } else {
                assert(x == t@);
            }
        }
    }
    assert(title_set(titles.push(t)) =~= title_set(titles).insert(t@));
}

/// The replay plan for the activities `acts` in order, given the titles
/// already `known` on the mirror: every commit activity is replayed; an
/// issue activity is replayed exactly when its published title is not yet
/// known, and then makes its title known to the rest of the run.
pub open spec fn plan_spec(
    level: RedactLevel,
    acts: Seq<Activity>,
    known: Set<Seq<char>>,
) -> Seq<SpecAction>
    decreases acts.len(),
{
    if acts.len() == 0 {
        Seq::empty()
    } else {
        let a = acts[0];
        let rest = acts.drop_first();
        match a.content {
            ActivityContent::Commit(c) => seq![
                SpecAction::Commit {
                    subject: commit_subject_spec(level, c.message@, a.source_link@),
                    body: commit_body_spec(level, c.sha1@, c.timestamp, c.message@, a.source_link@),
                    date: a.date,
                },
            ] + plan_spec(level, rest, known),
            ActivityContent::Issue(i) => {
                let t = issue_title_spec(level, i.issue_id, i.message@);
                if known.contains(t) {
                    plan_spec(level, rest, known)
                } else {
                    seq![
                        SpecAction::NewIssue {
                            title: t,
                            body: issue_body_spec(
                                level,
                                i.issue_id,
                                i.message@,
                                a.date,
                                a.source_link@,
                            ),
                            date: a.date,
                        },
                    ] + plan_spec(level, rest, known.insert(t))
                }
            },
        }
    }
}

/// A fresh list holding the same titles.
fn clone_string_vec(v: &Vec<String>) -> (r: Vec<String>)
    ensures
        r@ == v@,
{
    let mut r: Vec<String> = Vec::new();
    let n = v.len();
    let mut i: usize = 0;
    while i < n
        invariant
            i <= n,
            n == v@.len(),
            r@.len() == i,
            forall|j: int| 0 <= j < i ==> r@[j] == v@[j],
        decreases n - i,
    {
        r.push(v[i].clone());
        i = i + 1;
    }
    proof {
        assert(r@ =~= v@);
    }
    r
}

/// Whether some title of `v` has the text of `t`.
fn contains_string(v: &Vec<String>, t: &String) -> (r: bool)
    ensures
        r == title_set(v@).contains(t@),
{
    proof {
        lemma_title_set_contains(v@, t@);
    }
    let n = v.len();
    let mut i: usize = 0;
    while i < n
        invariant
            i <= n,
            n == v@.len(),
            forall|j: int| 0 <= j < i ==> #[trigger] v@[j]@ != t@,
        decreases n - i,
    {
        if v[i] == *t {
            proof {
                lemma_title_set_contains(v@, t@);
            }
            return true;
        }
        i = i + 1;
    }
    proof {
        lemma_title_set_contains(v@, t@);
    }
    false
}

/// Compute the replay plan for `acts`, in order, against the mirror's
/// existing issue titles; fails fast on the reserved `Encrypted` level.
pub fn plan_replay(
    level: RedactLevel,
    acts: &Vec<Activity>,
    existing_titles: &Vec<String>,
) -> (r: Result<Vec<ReplayAction>, ConfigError>)
    ensures
        r is Err <==> level == RedactLevel::Encrypted,
        r is Err ==> r == Err::<Vec<ReplayAction>, ConfigError>(
            ConfigError::EncryptedNotImplemented,
        ),
        r matches Ok(plan) ==> plan_views(plan@) == plan_spec(
            level,
            acts@,
            title_set(existing_titles@),
        ),
{
    if level == RedactLevel::Encrypted {
        return Err(ConfigError::EncryptedNotImplemented);
    }
    let mut known = clone_string_vec(existing_titles);
    let mut plan: Vec<ReplayAction> = Vec::new();
    let n = acts.len();
    let mut i: usize = 0;
    proof {
        assert(acts@.skip(0) =~= acts@);
        assert(plan_views(plan@) =~= Seq::<SpecAction>::empty());
        assert(Seq::<SpecAction>::empty() + plan_spec(level, acts@, title_set(known@))
            =~= plan_spec(level, acts@, title_set(known@)));
    }
    while i < n
        invariant
            i <= n,
            n == acts@.len(),
            level != RedactLevel::Encrypted,
            plan_spec(level, acts@, title_set(existing_titles@)) == plan_views(plan@)
                + plan_spec(level, acts@.skip(i as int), title_set(known@)),
        decreases n - i,
    {
        let ghost tail = acts@.skip(i as int);
        let ghost ks = title_set(known@);
        proof {
            assert(tail[0] == acts@[i as int]);
            assert(tail.drop_first() =~= acts@.skip(i + 1));
        }
        let a = &acts[i];
        match &a.content {
            ActivityContent::Commit(c) => {
                let subject = match redact_commit_subject(level, c, a.source_link.as_str()) {
                    Ok(s) => s,
                    Err(e) => {
                        return Err(e);
                    },
                };
                let body = match redact_commit_body(level, c, a.source_link.as_str()) {
                    Ok(s) => s,
                    Err(e) => {
                        return Err(e);
                    },
                };
                let act = ReplayAction::Commit { subject, body, date: a.date };
                proof {
                    assert(plan_spec(level, tail, ks) == seq![act@] + plan_spec(
                        level,
                        tail.drop_first(),
                        ks,
                    ));
                    assert(plan_views(plan@.push(act)) =~= plan_views(plan@) + seq![act@]);
                    assert((plan_views(plan@) + seq![act@]) + plan_spec(
                        level,
                        tail.drop_first(),
                        ks,
                    ) =~= plan_views(plan@) + (seq![act@] + plan_spec(
                        level,
                        tail.drop_first(),
                        ks,
                    )));
                }
                plan.push(act);
            },
            ActivityContent::Issue(iss) => {
                let title = match redact_issue_title(level, iss) {
                    Ok(s) => s,
                    Err(e) => {
                        return Err(e);
                    },
                };
                if contains_string(&known, &title) {
                    proof {
                        assert(plan_spec(level, tail, ks) == plan_spec(
                            level,
                            tail.drop_first(),
                            ks,
                        ));
                    }
                } else {
                    let body = match redact_issue_body(level, iss, a.date, a.source_link.as_str())
                        {
                        Ok(s) => s,
                        Err(e) => {
                            return Err(e);
                        },
                    };
                    let act = ReplayAction::NewIssue { title: title.clone(), body, date: a.date };
                    proof {
                        let t = issue_title_spec(level, iss.issue_id, iss.message@);
                        assert(plan_spec(level, tail, ks) == seq![act@] + plan_spec(
                            level,
                            tail.drop_first(),
                            ks.insert(t),
                        ));
                        assert(plan_views(plan@.push(act)) =~= plan_views(plan@) + seq![act@]);
                        assert((plan_views(plan@) + seq![act@]) + plan_spec(
                            level,
                            tail.drop_first(),
                            ks.insert(t),
                        ) =~= plan_views(plan@) + (seq![act@] + plan_spec(
                            level,
                            tail.drop_first(),
                            ks.insert(t),
                        )));
                        lemma_title_set_push(known@, title);
                    }
                    plan.push(act);
                    known.push(title);
                }
            },
        }
        i = i + 1;
    }
    proof {
        assert(acts@.skip(n as int) =~= Seq::<Activity>::empty());
        assert(plan_views(plan@) + Seq::<SpecAction>::empty() =~= plan_views(plan@));
    }
    Ok(plan)
}

/// The instant an action replays at.
pub open spec fn action_date(x: SpecAction) -> i64 {
    match x {
        SpecAction::Commit { date, .. } => date,
        SpecAction::NewIssue { date, .. } => date,
    }
}

proof fn lemma_plan_dates_bounded(
    level: RedactLevel,
    acts: Seq<Activity>,
    known: Set<Seq<char>>,
    lo: i64,
)
    requires
        forall|i: int| 0 <= i < acts.len() ==> #[trigger] acts[i].date >= lo,
    ensures
        forall|k: int|
            0 <= k < plan_spec(level, acts, known).len() ==> action_date(
                #[trigger] plan_spec(level, acts, known)[k],
            ) >= lo,
    decreases acts.len(),
{
    if acts.len() > 0 {
        let a = acts[0];
        let rest = acts.drop_first();
        assert(a.date >= lo);
        assert(forall|i: int| 0 <= i < rest.len() ==> #[trigger] rest[i].date >= lo);
        match a.content {
            ActivityContent::Commit(c) => {
                lemma_plan_dates_bounded(level, rest, known, lo);
            },
            ActivityContent::Issue(i) => {
                let t = issue_title_spec(level, i.issue_id, i.message@);
                if known.contains(t) {
                    lemma_plan_dates_bounded(level, rest, known, lo);
                } else {
                    lemma_plan_dates_bounded(level, rest, known.insert(t), lo);
                }
            },
        }
        assert forall|k: int|
            0 <= k < plan_spec(level, acts, known).len() implies action_date(
            #[trigger] plan_spec(level, acts, known)[k],
        ) >= lo by {
            let plan = plan_spec(level, acts, known);
            match a.content {
                ActivityContent::Commit(c) => {
                    let prest = plan_spec(level, rest, known);
                    assert(k > 0 ==> plan[k] == prest[k - 1]);
                    assert(k == 0 ==> action_date(plan[k]) == a.date);
                },
                ActivityContent::Issue(i) => {
                    let t = issue_title_spec(level, i.issue_id, i.message@);
                    if known.contains(t) {
                        let prest = plan_spec(level, rest, known);
                        assert(plan[k] == prest[k]);
                    } else {
                        let prest = plan_spec(level, rest, known.insert(t));
                        assert(k > 0 ==> plan[k] == prest[k - 1]);
                        assert(k == 0 ==> action_date(plan[k]) == a.date);
                    }
                },
            }
        }
    }
}

/// Within one repository, actions replay in ascending occurrence order:
/// a plan built from activities sorted by occurrence time never puts a
/// later instant before an earlier one.
pub proof fn lemma_plan_ascending(level: RedactLevel, acts: Seq<Activity>, known: Set<Seq<char>>)
    requires
        crate::activity::sorted_by_date(acts),
    ensures
        forall|p: int, q: int|
            0 <= p <= q < plan_spec(level, acts, known).len() ==> action_date(
                #[trigger] plan_spec(level, acts, known)[p],
            ) <= action_date(#[trigger] plan_spec(level, acts, known)[q]),
    decreases acts.len(),
{
    if acts.len() > 0 {
        let a = acts[0];
        let rest = acts.drop_first();
        assert(forall|i: int| 0 <= i < rest.len() ==> #[trigger] rest[i].date >= a.date);
        assert(crate::activity::sorted_by_date(rest)) by {
            assert(forall|i: int, j: int|
                0 <= i <= j < rest.len() ==> rest[i].date == acts[i + 1].date && rest[j].date
                    == acts[j + 1].date);
        }
        match a.content {
            ActivityContent::Commit(c) => {
                lemma_plan_ascending(level, rest, known);
                lemma_plan_dates_bounded(level, rest, known, a.date);
            },
            ActivityContent::Issue(i) => {
                let t = issue_title_spec(level, i.issue_id, i.message@);
                if known.contains(t) {
                    lemma_plan_ascending(level, rest, known);
                } else {
                    lemma_plan_ascending(level, rest, known.insert(t));
                    lemma_plan_dates_bounded(level, rest, known.insert(t), a.date);
                }
            },
        }
        assert forall|p: int, q: int|
            0 <= p <= q < plan_spec(level, acts, known).len() implies action_date(
            #[trigger] plan_spec(level, acts, known)[p],
        ) <= action_date(#[trigger] plan_spec(level, acts, known)[q]) by {
            let plan = plan_spec(level, acts, known);
            match a.content {
                ActivityContent::Commit(c) => {
                    let prest = plan_spec(level, rest, known);
                    if p > 0 {
                        assert(plan[p] == prest[p - 1]);
                        assert(plan[q] == prest[q - 1]);
                    } else if q > 0 {
                        assert(action_date(plan[p]) == a.date);
                        assert(plan[q] == prest[q - 1]);
                        assert(action_date(prest[q - 1]) >= a.date);
                    }
                },
                ActivityContent::Issue(i) => {
                    let t = issue_title_spec(level, i.issue_id, i.message@);
                    if known.contains(t) {
                        let prest = plan_spec(level, rest, known);
                        assert(plan[p] == prest[p]);
                        assert(plan[q] == prest[q]);
                    } else {
                        let prest = plan_spec(level, rest, known.insert(t));
                        if p > 0 {
                            assert(plan[p] == prest[p - 1]);
                            assert(plan[q] == prest[q - 1]);
                        } else if q > 0 {
                            assert(action_date(plan[p]) == a.date);
                            assert(plan[q] == prest[q - 1]);
                            assert(action_date(prest[q - 1]) >= a.date);
                        }
                    }
                },
            }
        }
    }
}

/// Idempotence of the engine: when every activity of a pass occurred at or
/// before the mirror's watermark — as after an unchanged re-run — nothing
/// survives the watermark filter, whatever order the pass sorted the
/// activities into, and the replay plan is empty: zero new commits and
/// zero new issues.
pub proof fn lemma_replay_idempotent(
    level: RedactLevel,
    acts: Seq<Activity>,
    sorted: Seq<Activity>,
    wm: i64,
    known: Set<Seq<char>>,
)
    requires
        sorted.to_multiset() == acts.to_multiset(),
        forall|i: int| 0 <= i < acts.len() ==> #[trigger] acts[i].date <= wm,
    ensures
        sorted.filter(newer_than(wm)) == Seq::<Activity>::empty(),
        plan_spec(level, sorted.filter(newer_than(wm)), known) == Seq::<SpecAction>::empty(),
{
    assert forall|i: int| 0 <= i < sorted.len() implies !(newer_than(wm)(
        #[trigger] sorted[i],
    )) by {
        let a = sorted[i];
        assert(sorted.contains(a));
        to_multiset_contains(sorted, a);
        to_multiset_contains(acts, a);
        assert(acts.contains(a));
        let j = choose|j: int| 0 <= j < acts.len() && acts[j] == a;
        assert(acts[j].date <= wm);
    }
    assert(sorted.all(|x: Activity| !(newer_than(wm)(x))));
    sorted.lemma_all_neg_filter_empty(newer_than(wm));
    assert(sorted.filter(newer_than(wm)) =~= Seq::<Activity>::empty());
}

} // verus!
