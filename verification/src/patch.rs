//! The application of a list of patch files to a working copy, one after
//! another, in the order in which they are given.

use crate::git::{invocation, verdict, verdict_of, Git, InvocationView, Outcome, OutcomeView};
use crate::sync::{Step, StepView, SyncError, SyncErrorView};
use vstd::prelude::*;

verus! {

/// Where the application of the patches stands.
#[derive(Clone, Copy, PartialEq, Eq, Structural, Debug)]
pub enum Progress {
    /// Nothing has begun.
    Idle,
    /// The outcome of the patch at `index` is awaited.
    Applying { index: usize },
    /// All is over.
    Finished,
}

/// The command that applies the patch file at `path`.
pub open spec fn apply_command(root: Seq<char>, path: Seq<char>) -> InvocationView {
    invocation(root, "apply"@, seq![path])
}

/// The move that hands out the patch at `index`, or ends the work where there
/// is none left.
pub open spec fn offer(root: Seq<char>, patches: Seq<Seq<char>>, index: int) -> (
    Progress,
    StepView,
) {
    if 0 <= index < patches.len() && index <= usize::MAX {
        (
            Progress::Applying { index: index as usize },
            StepView::Run(apply_command(root, patches[index])),
        )
    } else {
        (Progress::Finished, StepView::Done)
    }
}

/// The move that answers `outcome`. A patch that did not apply ends the work
/// with an error that names it; the patches before it stay applied, and those
/// after it are not tried. A patch that applied is followed by the next.
pub open spec fn answer(
    root: Seq<char>,
    patches: Seq<Seq<char>>,
    progress: Progress,
    outcome: OutcomeView,
) -> (Progress, StepView) {
    match progress {
        Progress::Idle => (Progress::Idle, StepView::Idle),
        Progress::Finished => (Progress::Finished, StepView::Idle),
        Progress::Applying { index } => if index >= patches.len() {
            (Progress::Finished, StepView::Idle)
        } else {
            match verdict_of(outcome) {
                Err(cause) => (
                    Progress::Finished,
                    StepView::Failed(SyncErrorView::Patch { path: patches[index as int], cause }),
                ),
                Ok(_) => offer(root, patches, index + 1),
            }
        },
    }
}

/// Applies patch files to a working copy, as a machine that is told what
/// happened and says what to do next.
pub struct PatchApplier {
    git: Git,
    patches: Vec<String>,
    progress: Progress,
}

pub ghost struct Applier {
    pub root: Seq<char>,
    pub patches: Seq<Seq<char>>,
    pub progress: Progress,
}

impl View for PatchApplier {
    type V = Applier;

    closed spec fn view(&self) -> Applier {
        Applier {
            root: self.git@,
            patches: self.patches.deep_view(),
            progress: self.progress,
        }
    }
}

impl PatchApplier {
    /// A machine that applies the files at `patches`, in the order given, to
    /// the working copy of `git`.
    pub fn new(git: Git, patches: Vec<String>) -> (applier: PatchApplier)
        ensures
            applier@ == (Applier {
                root: git@,
                patches: patches.deep_view(),
                progress: Progress::Idle,
            }),
    {
        PatchApplier { git, patches, progress: Progress::Idle }
    }

    /// Where the work stands.
    pub fn progress(&self) -> (progress: Progress)
        ensures
            progress == self@.progress,
    {
        self.progress
    }

    fn offer(&mut self, index: usize) -> (step: Step)
        ensures
            final(self)@.root == old(self)@.root,
            final(self)@.patches == old(self)@.patches,
            (final(self)@.progress, step@) == offer(
                old(self)@.root,
                old(self)@.patches,
                index as int,
            ),
    {
        if index < self.patches.len() {
            self.progress = Progress::Applying { index };
            Step::Run(self.git.apply(self.patches[index].as_str()))
        } else {
            self.progress = Progress::Finished;
            Step::Done
        }
    }

    /// Begins with the first patch, whatever stood before.
    pub fn start(&mut self) -> (step: Step)
        ensures
            final(self)@.root == old(self)@.root,
            final(self)@.patches == old(self)@.patches,
            (final(self)@.progress, step@) == offer(old(self)@.root, old(self)@.patches, 0),
    {
        self.offer(0)
    }

    /// Takes the outcome of the patch that was handed out last and says what
    /// to do next.
    pub fn advance(&mut self, outcome: &Outcome) -> (step: Step)
        ensures
            final(self)@.root == old(self)@.root,
            final(self)@.patches == old(self)@.patches,
            (final(self)@.progress, step@) == answer(
                old(self)@.root,
                old(self)@.patches,
                old(self)@.progress,
                outcome@,
            ),
    {
        match self.progress {
            Progress::Idle => Step::Idle,
            Progress::Finished => Step::Idle,
            Progress::Applying { index } => {
                if index >= self.patches.len() {
                    self.progress = Progress::Finished;
                    Step::Idle
                } else {
                    match verdict(outcome) {
                        Err(cause) => {
                            self.progress = Progress::Finished;
                            Step::Failed(
                                SyncError::Patch { path: self.patches[index].clone(), cause },
                            )
                        },
                        Ok(_) => self.offer(index + 1),
                    }
                }
            },
        }
    }
}

} // verus!
