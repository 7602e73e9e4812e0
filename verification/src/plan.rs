//! The copy job: which of the matched files are copied, and where to.
//!
//! Every file goes to the destination root under its own file name. What the
//! scan could not read is passed over. A path without a file name is passed
//! over too, or ends the job, as the policy says.

use vstd::prelude::*;
use crate::paths::{file_name, file_name_of, join, joined};

verus! {

/// What becomes of a matched path that has no file name.
#[derive(Clone, Copy, Debug, PartialEq, Eq, Structural)]
pub enum NamePolicy {
    /// It is passed over like a file that could not be copied.
    Skip,
    /// Nothing after it is copied, and the run fails.
    Abort,
}

/// One result of expanding a pattern.
#[derive(Clone, Debug)]
pub enum Match {
    /// A path that the pattern matched.
    Found(String),
    /// A path that could not be read while looking for matches.
    Unreadable(String),
}

/// A result of expanding a pattern, as contracts see it.
pub enum MatchView {
    Found(Seq<char>),
    Unreadable(Seq<char>),
}

impl View for Match {
    type V = MatchView;

    open spec fn view(&self) -> MatchView {
        match self {
            Match::Found(path) => MatchView::Found(path@),
            Match::Unreadable(path) => MatchView::Unreadable(path@),
        }
    }
}

impl DeepView for Match {
    type V = MatchView;

    open spec fn deep_view(&self) -> MatchView {
        self@
    }
}

/// A file to copy and the path of its copy.
#[derive(Clone, Debug)]
pub struct CopyPair {
    pub source: String,
    pub destination: String,
}

/// A file to copy and the path of its copy, as contracts see them.
pub struct CopyPairView {
    pub source: Seq<char>,
    pub destination: Seq<char>,
}

impl View for CopyPair {
    type V = CopyPairView;

    open spec fn view(&self) -> CopyPairView {
        CopyPairView { source: self.source@, destination: self.destination@ }
    }
}

impl DeepView for CopyPair {
    type V = CopyPairView;

    open spec fn deep_view(&self) -> CopyPairView {
        self@
    }
}

/// Why a match is not copied.
#[derive(Clone, Copy, Debug, PartialEq, Eq, Structural)]
pub enum SkipReason {
    Unreadable,
    NoFileName,
}

/// A match that is not copied.
#[derive(Clone, Debug)]
pub struct Skipped {
    pub path: String,
    pub reason: SkipReason,
}

/// A match that is not copied, as contracts see it.
pub struct SkippedView {
    pub path: Seq<char>,
    pub reason: SkipReason,
}

impl View for Skipped {
    type V = SkippedView;

    open spec fn view(&self) -> SkippedView {
        SkippedView { path: self.path@, reason: self.reason }
    }
}

impl DeepView for Skipped {
    type V = SkippedView;

    open spec fn deep_view(&self) -> SkippedView {
        self@
    }
}

/// What is to be done with the matches of one scan.
#[derive(Clone, Debug)]
pub struct CopyPlan {
    /// The files to copy, in the order in which they were matched.
    pub job: Vec<CopyPair>,
    /// The matches that are passed over, in the order in which they came.
    pub skipped: Vec<Skipped>,
    /// The path without a file name at which planning stopped, under
    /// `NamePolicy::Abort`. No match after it is in `job` or in `skipped`.
    pub stopped_at: Option<String>,
}

/// A plan as contracts see it.
#[verifier::ext_equal]
pub struct CopyPlanView {
    pub job: Seq<CopyPairView>,
    pub skipped: Seq<SkippedView>,
    pub stopped_at: Option<Seq<char>>,
}

impl View for CopyPlan {
    type V = CopyPlanView;

    open spec fn view(&self) -> CopyPlanView {
        CopyPlanView {
            job: self.job.deep_view(),
            skipped: self.skipped.deep_view(),
            stopped_at: self.stopped_at.deep_view(),
        }
    }
}

impl CopyPlanView {
    /// The plan for no match at all.
    pub open spec fn nothing() -> CopyPlanView {
        CopyPlanView { job: Seq::empty(), skipped: Seq::empty(), stopped_at: None }
    }

    /// This plan with one more match taken in.
    pub open spec fn with(self, found: MatchView, root: Seq<char>, policy: NamePolicy) -> CopyPlanView {
        match found {
            MatchView::Unreadable(path) => CopyPlanView {
                skipped: self.skipped.push(SkippedView { path, reason: SkipReason::Unreadable }),
                ..self
            },
            MatchView::Found(path) => match file_name_of(path) {
                Some(name) => CopyPlanView {
                    job: self.job.push(
                        CopyPairView { source: path, destination: joined(root, name) },
                    ),
                    ..self
                },
                None => match policy {
                    NamePolicy::Skip => CopyPlanView {
                        skipped: self.skipped.push(
                            SkippedView { path, reason: SkipReason::NoFileName },
                        ),
                        ..self
                    },
                    NamePolicy::Abort => CopyPlanView { stopped_at: Some(path), ..self },
                },
            },
        }
    }
}

/// The plan for `matches`: they are taken in one by one, in order, until the
/// plan stops.
pub open spec fn planned(matches: Seq<MatchView>, root: Seq<char>, policy: NamePolicy) -> CopyPlanView
    decreases matches.len(),
{
    if matches.len() == 0 {
        CopyPlanView::nothing()
    } else {
        let earlier = planned(matches.drop_last(), root, policy);
        if earlier.stopped_at is Some {
            earlier
        } else {
            earlier.with(matches.last(), root, policy)
        }
    }
}

/// Plans the copies of `matches` into the directory `root`.
pub fn plan_copies(matches: &Vec<Match>, root: &str, policy: NamePolicy) -> (plan: CopyPlan)
    ensures
        plan@ == planned(matches.deep_view(), root@, policy),
{
    let mut plan = CopyPlan { job: Vec::new(), skipped: Vec::new(), stopped_at: None };
    let ghost all = matches.deep_view();
    let mut i: usize = 0;
    assert(all.take(0) =~= Seq::<MatchView>::empty());
    assert(plan@ =~= CopyPlanView::nothing());
    while i < matches.len()
        invariant
            i <= matches.len(),
            all == matches.deep_view(),
            plan@ == planned(all.take(i as int), root@, policy),
            plan.stopped_at is None,
        decreases matches.len() - i,
    {
        let ghost before = plan@;
        let ghost taken = all.take(i + 1);
        assert(taken.drop_last() =~= all.take(i as int));
        assert(taken.last() == matches[i as int]@);
        match &matches[i] {
            Match::Unreadable(path) => {
                plan.skipped.push(Skipped { path: path.clone(), reason: SkipReason::Unreadable });
            },
            Match::Found(path) => {
                match file_name(path.as_str()) {
                    Some(name) => {
                        let destination = join(root, name.as_str());
                        plan.job.push(CopyPair { source: path.clone(), destination });
                    },
                    None => {
                        match policy {
                            NamePolicy::Skip => {
                                plan.skipped.push(
                                    Skipped { path: path.clone(), reason: SkipReason::NoFileName },
                                );
                            },
                            NamePolicy::Abort => {
                                plan.stopped_at = Some(path.clone());
                                assert(plan@ =~= before.with(taken.last(), root@, policy));
                                proof {
                                    lemma_stopped_stays(all, i + 1, root@, policy);
                                }
                                return plan;
                            },
                        }
                    },
                }
            },
        }
        assert(plan@ =~= before.with(taken.last(), root@, policy));
        i = i + 1;
    }
    assert(all.take(i as int) =~= all);
    plan
}

/// Once planning has stopped, later matches change nothing.
pub proof fn lemma_stopped_stays(
    matches: Seq<MatchView>,
    upto: int,
    root: Seq<char>,
    policy: NamePolicy,
)
    requires
        0 <= upto <= matches.len(),
        planned(matches.take(upto), root, policy).stopped_at is Some,
    ensures
        planned(matches, root, policy) == planned(matches.take(upto), root, policy),
    decreases matches.len(),
{
    if upto == matches.len() {
        assert(matches.take(upto) =~= matches);
    } else {
        let earlier = matches.drop_last();
        assert(earlier.take(upto) =~= matches.take(upto));
        lemma_stopped_stays(earlier, upto, root, policy);
    }
}

/// Every match is accounted for: copied or passed over, unless planning
/// stopped before it. And every copy lands in the root under its source's
/// file name.
pub proof fn lemma_plan_accounts(matches: Seq<MatchView>, root: Seq<char>, policy: NamePolicy)
    ensures
        ({
            let plan = planned(matches, root, policy);
            &&& plan.job.len() + plan.skipped.len() <= matches.len()
            &&& plan.stopped_at is None ==> plan.job.len() + plan.skipped.len() == matches.len()
            &&& policy == NamePolicy::Skip ==> plan.stopped_at is None
            &&& forall|i: int|
                0 <= i < plan.job.len() ==> file_name_of((#[trigger] plan.job[i]).source) is Some
                    && plan.job[i].destination == joined(
                    root,
                    file_name_of(plan.job[i].source)->Some_0,
                )
        }),
    decreases matches.len(),
{
    if matches.len() > 0 {
        lemma_plan_accounts(matches.drop_last(), root, policy);
    }
}

} // verus!
