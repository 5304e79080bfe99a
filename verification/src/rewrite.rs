//! The rewrite of a target file through a temporary file, as a protocol that the caller runs.
//!
//! The target is touched by one step only, the last, once the temporary file holds every line:
//! whatever fails before that leaves the target as it was.

use vstd::prelude::*;
use crate::error::EnvError;
use crate::error::ErrorView;

verus! {

/// How far the rewrite of a target file has come.
#[derive(Debug, PartialEq, Eq)]
pub enum Stage {
    /// The lines to write are known. No temporary file exists and the target is as it was.
    Reconstructed,
    /// The temporary file holds the first `written` lines, and more are to come.
    Writing { written: usize },
    /// The temporary file holds every line. The target is still as it was.
    TempWritten,
    /// The target was replaced by the temporary file.
    Committed,
    /// A step failed and the rewrite was given up.
    Failed(EnvError),
}

/// What is to be done next in a rewrite.
#[derive(Debug, PartialEq, Eq)]
pub enum Step<'a> {
    /// Create the temporary file.
    CreateTemp,
    /// Write this line and a newline to the temporary file.
    WriteLine(&'a str),
    /// Replace the target by the temporary file.
    Commit,
    /// Nothing more: discard the temporary file, if there is one.
    Stop,
}

/// The rewrite of a target file: the lines to write and how far writing them has come.
///
/// The caller does what `step` says and hands the result to `record`, until `step` says `Stop`.
pub struct Rewrite {
    lines: Vec<String>,
    stage: Stage,
}

/// The mathematical content of a `Stage`.
pub enum StageView {
    Reconstructed,
    Writing { written: nat },
    TempWritten,
    Committed,
    Failed(ErrorView),
}

/// The mathematical content of a `Step`.
pub enum StepView {
    CreateTemp,
    WriteLine(Seq<char>),
    Commit,
    Stop,
}

/// The mathematical content of a `Rewrite`.
pub struct RewriteView {
    pub lines: Seq<Seq<char>>,
    pub stage: StageView,
}

impl View for Stage {
    type V = StageView;

    open spec fn view(&self) -> StageView {
        match self {
            Stage::Reconstructed => StageView::Reconstructed,
            Stage::Writing { written } => StageView::Writing { written: *written as nat },
            Stage::TempWritten => StageView::TempWritten,
            Stage::Committed => StageView::Committed,
            Stage::Failed(e) => StageView::Failed(e@),
        }
    }
}

impl View for Step<'_> {
    type V = StepView;

    open spec fn view(&self) -> StepView {
        match self {
            Step::CreateTemp => StepView::CreateTemp,
            Step::WriteLine(line) => StepView::WriteLine(line@),
            Step::Commit => StepView::Commit,
            Step::Stop => StepView::Stop,
        }
    }
}

impl View for Rewrite {
    type V = RewriteView;

    closed spec fn view(&self) -> RewriteView {
        RewriteView { lines: self.lines.deep_view(), stage: self.stage@ }
    }
}

/// The stage at which the temporary file holds the first `written` of `total` lines.
pub open spec fn holding(total: nat, written: nat) -> StageView {
    if written < total {
        StageView::Writing { written }
    } else {
        StageView::TempWritten
    }
}

impl RewriteView {
    /// The rewrite of `lines` before anything was done.
    pub open spec fn start(lines: Seq<Seq<char>>) -> RewriteView {
        RewriteView { lines, stage: StageView::Reconstructed }
    }

    /// While lines are being written, one is still to come.
    pub open spec fn wf(self) -> bool {
        self.stage matches StageView::Writing { written } ==> written < self.lines.len()
    }

    /// What is to be done next.
    pub open spec fn step(self) -> StepView {
        match self.stage {
            StageView::Reconstructed => StepView::CreateTemp,
            StageView::Writing { written } => StepView::WriteLine(self.lines[written as int]),
            StageView::TempWritten => StepView::Commit,
            StageView::Committed => StepView::Stop,
            StageView::Failed(_) => StepView::Stop,
        }
    }

    /// The rewrite after its step was tried: `fault` is `None` where the step was done, and
    /// says why where it failed. Why the temporary file could not be created is not kept.
    pub open spec fn after(self, fault: Option<Seq<char>>) -> RewriteView {
        let stage = match self.stage {
            StageView::Reconstructed => match fault {
                None => holding(self.lines.len(), 0),
                Some(_) => StageView::Failed(ErrorView::RewriteWrite { cause: None }),
            },
            StageView::Writing { written } => match fault {
                None => holding(self.lines.len(), written + 1),
                Some(cause) => StageView::Failed(ErrorView::RewriteWrite { cause: Some(cause) }),
            },
            StageView::TempWritten => match fault {
                None => StageView::Committed,
                Some(reason) => StageView::Failed(ErrorView::RewriteCommit { reason }),
            },
            StageView::Committed => StageView::Committed,
            StageView::Failed(e) => StageView::Failed(e),
        };
        RewriteView { lines: self.lines, stage }
    }

    /// How the rewrite ended, once it has.
    pub open spec fn outcome(self) -> Option<Result<(), ErrorView>> {
        match self.stage {
            StageView::Committed => Some(Ok(())),
            StageView::Failed(e) => Some(Err(e)),
            _ => None,
        }
    }
}

impl Rewrite {
    #[verifier::type_invariant]
    spec fn inv(self) -> bool {
        self.stage matches Stage::Writing { written } ==> written < self.lines.len()
    }

    /// A rewrite that is to write `lines`.
    pub fn new(lines: Vec<String>) -> (r: Rewrite)
        ensures
            r@ == RewriteView::start(lines.deep_view()),
            r@.wf(),
    {
        Rewrite { lines, stage: Stage::Reconstructed }
    }

    /// How far the rewrite has come.
    pub fn stage(&self) -> (s: &Stage)
        ensures
            s@ == self@.stage,
    {
        &self.stage
    }

    /// What is to be done next.
    pub fn step(&self) -> (s: Step<'_>)
        ensures
            s@ == self@.step(),
            self@.wf(),
    {
        proof {
            use_type_invariant(self);
        }
        match &self.stage {
            Stage::Reconstructed => Step::CreateTemp,
            Stage::Writing { written } => Step::WriteLine(self.lines[*written].as_str()),
            Stage::TempWritten => Step::Commit,
            Stage::Committed => Step::Stop,
            Stage::Failed(_) => Step::Stop,
        }
    }

    /// Takes note of how the step went: `result` is `Ok` where it was done, and says why where it
    /// failed. Once the rewrite has ended, nothing changes it.
    pub fn record(&mut self, result: Result<(), String>)
        ensures
            final(self)@ == old(self)@.after(
                match result {
                    Ok(_) => None,
                    Err(why) => Some(why@),
                },
            ),
            final(self)@.wf(),
    {
        proof {
            use_type_invariant(&*self);
        }
        let total = self.lines.len();
        let next = match &self.stage {
            Stage::Reconstructed => match result {
                Ok(_) => if 0 < total {
                    Stage::Writing { written: 0 }
                } else {
                    Stage::TempWritten
                },
                Err(_) => Stage::Failed(EnvError::RewriteWrite { cause: None }),
            },
            Stage::Writing { written } => match result {
                Ok(_) => if *written + 1 < total {
                    Stage::Writing { written: *written + 1 }
                } else {
                    Stage::TempWritten
                },
                Err(cause) => Stage::Failed(EnvError::RewriteWrite { cause: Some(cause) }),
            },
            Stage::TempWritten => match result {
                Ok(_) => Stage::Committed,
                Err(reason) => Stage::Failed(EnvError::RewriteCommit { reason }),
            },
            Stage::Committed => {
                return ;
            },
            Stage::Failed(_) => {
                return ;
            },
        };
        self.stage = next;
    }

    /// How the rewrite ended, once it has.
    pub fn outcome(self) -> (r: Option<Result<(), EnvError>>)
        ensures
            match r {
                Some(Ok(_)) => self@.outcome() == Some(Ok::<(), ErrorView>(())),
                Some(Err(e)) => self@.outcome() == Some(Err::<(), ErrorView>(e@)),
                None => self@.outcome() is None,
            },
    {
        match self.stage {
            Stage::Committed => Some(Ok(())),
            Stage::Failed(e) => Some(Err(e)),
            _ => None,
        }
    }
}

/// The rewrite after each of `results` was recorded, in their order. A result is `None` where
/// the step was done, and says why where it failed.
pub open spec fn run(from: RewriteView, results: Seq<Option<Seq<char>>>) -> RewriteView
    decreases results.len(),
{
    if results.len() == 0 {
        from
    } else {
        run(from, results.drop_last()).after(results.last())
    }
}

/// `n` results of steps that were done.
pub open spec fn successes(n: nat) -> Seq<Option<Seq<char>>> {
    Seq::new(n, |i: int| None)
}

/// The error of a rewrite of `total` lines whose step `k` is the first to fail, with `why`. Step 0
/// creates the temporary file, the steps `1..=total` write the lines, step `total + 1` replaces
/// the target.
pub open spec fn failure(total: nat, k: nat, why: Seq<char>) -> ErrorView {
    if k == 0 {
        ErrorView::RewriteWrite { cause: None }
    } else if k <= total {
        ErrorView::RewriteWrite { cause: Some(why) }
    } else {
        ErrorView::RewriteCommit { reason: why }
    }
}

/// Whether step `k` is the first of `results` that failed, and failed with `why`.
pub open spec fn first_failure(results: Seq<Option<Seq<char>>>, k: nat, why: Seq<char>) -> bool {
    &&& k < results.len()
    &&& results.take(k as int) == successes(k)
    &&& results[k as int] == Some(why)
}

/// What a stage tells of the results that led to it from the start. The temporary file is
/// created first, then the lines are written one by one in their order, and only then is the
/// target touched; the first step that fails ends the rewrite with its error.
pub proof fn lemma_run(lines: Seq<Seq<char>>, results: Seq<Option<Seq<char>>>)
    ensures
        ({
            let r = run(RewriteView::start(lines), results);
            let total = lines.len();
            &&& r.lines == lines
            &&& r.wf()
            &&& match r.stage {
                StageView::Reconstructed => results.len() == 0,
                StageView::Writing { written } => results == successes(written + 1),
                StageView::TempWritten => results == successes(total + 1),
                StageView::Committed => results.len() >= total + 2 && results.take(total + 2 as int)
                    == successes(total + 2),
                StageView::Failed(e) => exists|k: nat, why: Seq<char>|
                    k <= total + 1 && #[trigger] first_failure(results, k, why) && e == failure(
                        total,
                        k,
                        why,
                    ),
            }
        }),
    decreases results.len(),
{
    let total = lines.len();
    if results.len() > 0 {
        let before = results.drop_last();
        let n = before.len();
        let last = results.last();
        let r = run(RewriteView::start(lines), before);
        lemma_run(lines, before);
        assert(results =~= before.push(last));
        match r.stage {
            StageView::Reconstructed => {
                match last {
                    None => {
                        assert(results =~= successes(1));
                    },
                    Some(why) => {
                        assert(results.take(0) =~= successes(0));
                        assert(first_failure(results, 0, why));
                    },
                }
            },
            StageView::Writing { written } => {
                match last {
                    None => {
                        assert(results =~= successes(written + 2));
                    },
                    Some(why) => {
                        assert(results.take(n as int) =~= successes(n));
                        assert(first_failure(results, n, why));
                    },
                }
            },
            StageView::TempWritten => {
                match last {
                    None => {
                        assert(results.take(total + 2 as int) =~= successes(total + 2));
                    },
                    Some(why) => {
                        assert(results.take(n as int) =~= successes(n));
                        assert(first_failure(results, n, why));
                    },
                }
            },
            StageView::Committed => {
                assert(results.take(total + 2 as int) =~= before.take(total + 2 as int));
            },
            StageView::Failed(e) => {
                let (k, why) = choose|k: nat, why: Seq<char>|
                    k <= total + 1 && #[trigger] first_failure(before, k, why) && e == failure(
                        total,
                        k,
                        why,
                    );
                assert(results.take(k as int) =~= before.take(k as int));
                assert(first_failure(results, k, why));
            },
        }
    }
}

/// The stage of a rewrite of `total` lines after `n` steps that were all done.
pub open spec fn stage_after(total: nat, n: nat) -> StageView {
    if n == 0 {
        StageView::Reconstructed
    } else if n <= total {
        StageView::Writing { written: (n - 1) as nat }
    } else if n == total + 1 {
        StageView::TempWritten
    } else {
        StageView::Committed
    }
}

/// A rewrite whose steps are all done creates the temporary file, writes the lines in their
/// order, replaces the target, and stops.
pub proof fn law_rewrite_in_order(lines: Seq<Seq<char>>, n: nat)
    ensures
        ({
            let r = run(RewriteView::start(lines), successes(n));
            &&& r.lines == lines
            &&& r.stage == stage_after(lines.len(), n)
            &&& n == 0 ==> r.step() == StepView::CreateTemp
            &&& 1 <= n <= lines.len() ==> r.step() == StepView::WriteLine(lines[n - 1])
            &&& n == lines.len() + 1 ==> r.step() == StepView::Commit
            &&& n >= lines.len() + 2 ==> r.step() == StepView::Stop && r.outcome() == Some(
                Ok::<(), ErrorView>(()),
            )
        }),
    decreases n,
{
    if n > 0 {
        law_rewrite_in_order(lines, (n - 1) as nat);
        assert(successes(n).drop_last() =~= successes((n - 1) as nat));
    }
}

/// The target is touched only once the temporary file holds every line: where replacing it is
/// the next step, or was done, each step before that was done.
pub proof fn law_commit_comes_last(lines: Seq<Seq<char>>, results: Seq<Option<Seq<char>>>)
    ensures
        ({
            let r = run(RewriteView::start(lines), results);
            &&& r.step() == StepView::Commit ==> results == successes(lines.len() + 1)
            &&& r.stage is Committed ==> results.len() >= lines.len() + 2 && results.take(
                lines.len() + 2 as int,
            ) == successes(lines.len() + 2)
        }),
{
    lemma_run(lines, results);
}

/// The first step that fails ends the rewrite: its error is the outcome, whatever is recorded
/// after it, and nothing more is to be done.
pub proof fn law_failure_is_final(
    lines: Seq<Seq<char>>,
    results: Seq<Option<Seq<char>>>,
    k: nat,
    why: Seq<char>,
)
    requires
        k <= lines.len() + 1,
        first_failure(results, k, why),
    ensures
        ({
            let r = run(RewriteView::start(lines), results);
            &&& r.stage == StageView::Failed(failure(lines.len(), k, why))
            &&& r.step() == StepView::Stop
            &&& r.outcome() == Some(Err::<(), ErrorView>(failure(lines.len(), k, why)))
        }),
    decreases results.len(),
{
    let before = results.drop_last();
    if k + 1 == results.len() {
        assert(before =~= successes(k));
        law_rewrite_in_order(lines, k);
    } else {
        assert(before.take(k as int) =~= results.take(k as int));
        law_failure_is_final(lines, before, k, why);
    }
}

} // verus!
