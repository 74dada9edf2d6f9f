//! The pass that brings a working copy to a pinned revision.
//!
//! A pass alternates between looking and acting. It looks at the remotes and
//! the branches of the working copy, names the state that they show, runs the
//! repair that belongs to that state, and ends by fetching the pinned revision
//! and creating the patch branch on it. A directory whose remotes show that it
//! belongs to something else is refused and left as it is. The
//! [`Synchronizer`] decides; its caller runs each command that it hands out and
//! reports what came of it.

use crate::git::{
    checkout_args, error_text, fetch_args, invocation, parse_remotes, remotes_of, reset_args,
    shows_branch, verdict, verdict_of, Git, GitError, GitErrorView, Invocation, InvocationView,
    Outcome, OutcomeView,
};
use vstd::prelude::*;
use vstd::string::*;

verus! {

/// What a pass works towards: the working copy at `root`, owned through the
/// remote `origin` at `url`, with the patch branch on `revision`.
pub ghost struct Setup {
    pub root: Seq<char>,
    pub anchor: Seq<char>,
    pub patch: Seq<char>,
    pub url: Seq<char>,
    pub revision: Seq<char>,
}

/// What a pass has found out about the working copy.
#[derive(Clone, Copy, Debug, PartialEq, Eq)]
pub struct Facts {
    /// The root directory exists.
    pub root_exists: bool,
    /// At least one remote is listed, whatever its name and url.
    pub any_remote: bool,
    /// A remote named `origin` with the configured url is listed.
    pub origin_matches: bool,
    /// A branch whose name holds the anchor branch's name is listed.
    pub anchor_present: bool,
    /// A branch whose name holds the patch branch's name is listed.
    pub patch_present: bool,
}

/// The state that a working copy is found in.
#[derive(Clone, Copy, PartialEq, Eq, Structural, Debug)]
pub enum State {
    /// The directory exists and lists remotes, none of which is `origin` with
    /// the configured url.
    Foreign,
    /// The clone is ours and has no anchor branch.
    NoAnchor,
    /// The clone is ours and holds a patch branch of an earlier pass.
    StalePatch,
    /// There is no directory.
    Fresh,
    /// The clone is ours and needs no repair.
    Ready,
    /// The directory exists and lists no remote at all. It is not refused, and
    /// nothing in it is repaired.
    NoRemote,
}

/// What a command of a pass is for.
#[derive(Clone, Copy, PartialEq, Eq, Structural, Debug)]
pub enum Stage {
    ListRemotes,
    CreateAnchor,
    ResetTree,
    CleanTree,
    CheckoutAnchor,
    DeletePatch,
    Initialize,
    AddRemote,
    CreateFirstAnchor,
    Fetch,
    CreatePatch,
}

/// The state that the facts show. The states are tried in a fixed order and
/// the first that fits is taken. An existing root is foreign if it lists a
/// remote and none is the expected `origin`; with that `origin` it is without
/// anchor, or else holds a stale patch branch. A missing root is fresh. An
/// existing root that fits none of these is ready if the expected `origin` is
/// listed, and without remote if it is not.
pub open spec fn state_of(facts: Facts) -> State {
    if facts.root_exists && facts.any_remote && !facts.origin_matches {
        State::Foreign
    } else if facts.root_exists && facts.origin_matches && !facts.anchor_present {
        State::NoAnchor
    } else if facts.root_exists && facts.origin_matches && facts.patch_present {
        State::StalePatch
    } else if !facts.root_exists {
        State::Fresh
    } else if facts.origin_matches {
        State::Ready
    } else {
        State::NoRemote
    }
}

/// The state that the facts show.
pub fn classify(facts: Facts) -> (state: State)
    ensures
        state == state_of(facts),
{
    if !facts.root_exists {
        State::Fresh
    } else if facts.origin_matches {
        if !facts.anchor_present {
            State::NoAnchor
        } else if facts.patch_present {
            State::StalePatch
        } else {
            State::Ready
        }
    } else if facts.any_remote {
        State::Foreign
    } else {
        State::NoRemote
    }
}

/// Whether `remotes` lists a remote named `origin` with exactly `url`.
pub open spec fn lists_origin(remotes: Seq<(Seq<char>, Seq<char>)>, url: Seq<char>) -> bool {
    exists|i: int| 0 <= i < remotes.len() && #[trigger] remotes[i] == ("origin"@, url)
}

/// Whether `remotes` lists a remote named `origin` with exactly `url`. How
/// often it is listed does not matter.
pub fn has_origin(remotes: &Vec<(String, String)>, url: &str) -> (found: bool)
    ensures
        found == lists_origin(remotes.deep_view(), url@),
{
    let origin = "origin".to_owned();
    let wanted = url.to_owned();
    let mut i: usize = 0;
    while i < remotes.len()
        invariant
            i <= remotes.len(),
            origin@ == "origin"@,
            wanted@ == url@,
            forall|k: int| 0 <= k < i ==> #[trigger] remotes.deep_view()[k] != ("origin"@, url@),
        decreases remotes.len() - i,
    {
        if remotes[i].0 == origin && remotes[i].1 == wanted {
            assert(remotes.deep_view()[i as int] == ("origin"@, url@));
            return true;
        }
        i = i + 1;
    }
    false
}

/// The words that say what a command of a pass was for, for use in front of
/// the error that it ended with.
pub open spec fn context_of(stage: Stage) -> Seq<char> {
    match stage {
        Stage::ListRemotes => "failed to get git remotes"@,
        Stage::CreateAnchor => "unable to checkout temporary branch"@,
        Stage::ResetTree => "unable to hard reset working tree"@,
        Stage::CleanTree => "unable to clean working tree"@,
        Stage::CheckoutAnchor => "unable to checkout temporary branch"@,
        Stage::DeletePatch => "unable to delete branch"@,
        Stage::Initialize => "unable to initialize new repository"@,
        Stage::AddRemote => "unable to add git remote"@,
        Stage::CreateFirstAnchor => "unable to create and checkout temporary branch"@,
        Stage::Fetch => "unable to fetch git revision"@,
        Stage::CreatePatch => "unable to checkout git patch branch"@,
    }
}

/// The words that say what a command of a pass was for.
pub fn context(stage: Stage) -> (words: &'static str)
    ensures
        words@ == context_of(stage),
{
    match stage {
        Stage::ListRemotes => "failed to get git remotes",
        Stage::CreateAnchor => "unable to checkout temporary branch",
        Stage::ResetTree => "unable to hard reset working tree",
        Stage::CleanTree => "unable to clean working tree",
        Stage::CheckoutAnchor => "unable to checkout temporary branch",
        Stage::DeletePatch => "unable to delete branch",
        Stage::Initialize => "unable to initialize new repository",
        Stage::AddRemote => "unable to add git remote",
        Stage::CreateFirstAnchor => "unable to create and checkout temporary branch",
        Stage::Fetch => "unable to fetch git revision",
        Stage::CreatePatch => "unable to checkout git patch branch",
    }
}

/// Why a pass ended without reaching its goal.
#[derive(Clone, Debug, PartialEq, Eq)]
pub enum SyncError {
    /// The directory exists and lists remotes, none of which is named `origin`
    /// and has the configured url. Nothing in it was changed.
    Foreign { directory: String, url: String },
    /// A command of the pass did not succeed.
    Command { stage: Stage, cause: GitError },
    /// The patch file at `path` did not apply.
    Patch { path: String, cause: GitError },
}

pub enum SyncErrorView {
    Foreign { directory: Seq<char>, url: Seq<char> },
    Command { stage: Stage, cause: GitErrorView },
    Patch { path: Seq<char>, cause: GitErrorView },
}

impl View for SyncError {
    type V = SyncErrorView;

    open spec fn view(&self) -> SyncErrorView {
        match self {
            SyncError::Foreign { directory, url } => SyncErrorView::Foreign {
                directory: directory@,
                url: url@,
            },
            SyncError::Command { stage, cause } => SyncErrorView::Command {
                stage: *stage,
                cause: cause@,
            },
            SyncError::Patch { path, cause } => SyncErrorView::Patch { path: path@, cause: cause@ },
        }
    }
}

/// The text of an error: for a foreign directory a sentence that names the
/// directory and the url; for a command what it was for, a colon, and the text
/// of its error; for a patch its path, a colon, and the text of its error.
pub open spec fn message_of(error: SyncErrorView) -> Seq<char> {
    match error {
        SyncErrorView::Foreign { directory, url } => "grammar directory "@ + directory
            + " already exists, but is not a git clone of "@ + url,
        SyncErrorView::Command { stage, cause } => context_of(stage) + ": "@ + error_text(cause),
        SyncErrorView::Patch { path, cause } => "unable to apply patch from "@ + path + ": "@
            + error_text(cause),
    }
}

impl SyncError {
    /// The text of the error.
    pub fn message(&self) -> (text: String)
        ensures
            text@ == message_of(self@),
    {
        match self {
            SyncError::Foreign { directory, url } => {
                let mut text = "grammar directory ".to_owned();
                text.append(directory.as_str());
                text.append(" already exists, but is not a git clone of ");
                text.append(url.as_str());
                text
            },
            SyncError::Command { stage, cause } => {
                let mut text = context(*stage).to_owned();
                text.append(": ");
                text.append(cause.message());
                text
            },
            SyncError::Patch { path, cause } => {
                let mut text = "unable to apply patch from ".to_owned();
                text.append(path.as_str());
                text.append(": ");
                text.append(cause.message());
                text
            },
        }
    }
}

/// One command of a pass, with what it is for.
#[derive(Clone, Debug, PartialEq, Eq)]
pub struct Planned {
    pub stage: Stage,
    pub invocation: Invocation,
}

pub struct PlannedView {
    pub stage: Stage,
    pub invocation: InvocationView,
}

impl View for Planned {
    type V = PlannedView;

    open spec fn view(&self) -> PlannedView {
        PlannedView { stage: self.stage, invocation: self.invocation@ }
    }
}

/// The command that lists the remotes of the working copy.
pub open spec fn remote_listing(setup: Setup) -> InvocationView {
    invocation(setup.root, "remote"@, seq!["-v"@])
}

/// The command that lists the branches of the working copy.
pub open spec fn branch_listing(setup: Setup) -> InvocationView {
    invocation(setup.root, "branch"@, seq!["--format='%(refname:short)'"@])
}

/// The command that creates the anchor branch on the current tip and checks it
/// out.
pub open spec fn create_anchor(setup: Setup) -> InvocationView {
    invocation(setup.root, "checkout"@, checkout_args(setup.anchor, true, None))
}

/// The commands that repair a working copy found in `state`, in order.
///
/// Without an anchor one is created. With a stale patch branch the working tree
/// is reset and cleaned, the anchor branch is checked out, and only then the
/// patch branch is deleted. A fresh root is initialised, given its remote, and
/// an anchor branch. A foreign directory, a ready clone and a root without
/// remotes get no command.
pub open spec fn repair_of(setup: Setup, state: State) -> Seq<PlannedView> {
    match state {
        State::Foreign => Seq::empty(),
        State::Ready => Seq::empty(),
        State::NoRemote => Seq::empty(),
        State::NoAnchor => seq![
            PlannedView { stage: Stage::CreateAnchor, invocation: create_anchor(setup) },
        ],
        State::StalePatch => seq![
            PlannedView {
                stage: Stage::ResetTree,
                invocation: invocation(setup.root, "reset"@, reset_args(true)),
            },
            PlannedView {
                stage: Stage::CleanTree,
                invocation: invocation(setup.root, "clean"@, seq!["-fd"@]),
            },
            PlannedView {
                stage: Stage::CheckoutAnchor,
                invocation: invocation(
                    setup.root,
                    "checkout"@,
                    checkout_args(setup.anchor, false, None),
                ),
            },
            PlannedView {
                stage: Stage::DeletePatch,
                invocation: invocation(setup.root, "branch"@, seq!["-D"@, setup.patch]),
            },
        ],
        State::Fresh => seq![
            PlannedView {
                stage: Stage::Initialize,
                invocation: InvocationView {
                    create_root: true,
                    ..invocation(setup.root, "init"@, Seq::empty())
                },
            },
            PlannedView {
                stage: Stage::AddRemote,
                invocation: invocation(setup.root, "remote"@, seq!["add"@, "origin"@, setup.url]),
            },
            PlannedView { stage: Stage::CreateFirstAnchor, invocation: create_anchor(setup) },
        ],
    }
}

/// The two commands that every pass ends with: the fetch of the pinned
/// revision alone from `origin`, and the creation of the patch branch on it.
pub open spec fn converge_of(setup: Setup) -> Seq<PlannedView> {
    seq![
        PlannedView {
            stage: Stage::Fetch,
            invocation: invocation(
                setup.root,
                "fetch"@,
                fetch_args("origin"@, Some(setup.revision)),
            ),
        },
        PlannedView {
            stage: Stage::CreatePatch,
            invocation: invocation(
                setup.root,
                "checkout"@,
                checkout_args(setup.patch, true, Some(setup.revision)),
            ),
        },
    ]
}

/// Where a pass stands.
#[derive(Clone, Copy, PartialEq, Eq, Structural, Debug)]
pub enum Phase {
    /// No pass has begun.
    Idle,
    /// The remote listing is awaited.
    Remotes,
    /// The branch listing is awaited.
    Branches,
    /// The command at `index` of the repair of `state` is awaited.
    Repairing { state: State, index: usize },
    /// The branch listing that follows the creation of the anchor is awaited.
    Relisting,
    /// The command at `index` of the last two is awaited.
    Converging { index: usize },
    /// The pass is over.
    Finished,
}

/// What the caller is to do next.
#[derive(Clone, Debug, PartialEq, Eq)]
pub enum Step {
    /// Run this command and report its outcome.
    Run(Invocation),
    /// The pass has reached its goal.
    Done,
    /// The pass has ended with this error.
    Failed(SyncError),
    /// No command was awaited; the report was ignored.
    Idle,
}

pub enum StepView {
    Run(InvocationView),
    Done,
    Failed(SyncErrorView),
    Idle,
}

impl View for Step {
    type V = StepView;

    open spec fn view(&self) -> StepView {
        match self {
            Step::Run(invocation) => StepView::Run(invocation@),
            Step::Done => StepView::Done,
            Step::Failed(error) => StepView::Failed(error@),
            Step::Idle => StepView::Idle,
        }
    }
}

/// The first move of a pass. Where the root exists its remotes are listed;
/// where it does not, the working copy is fresh.
pub open spec fn begin(setup: Setup, root_exists: bool) -> (Phase, StepView) {
    if root_exists {
        (Phase::Remotes, StepView::Run(remote_listing(setup)))
    } else {
        enter(setup, State::Fresh)
    }
}

/// The move that starts the repair of `state`, or what follows the repair
/// where the state needs none.
pub open spec fn enter(setup: Setup, state: State) -> (Phase, StepView) {
    let repair = repair_of(setup, state);
    if repair.len() > 0 {
        (Phase::Repairing { state, index: 0 }, StepView::Run(repair[0].invocation))
    } else {
        follow(setup, state)
    }
}

/// The move that follows the repair of `state`. After the anchor was created
/// in an existing clone the branches are listed anew, to see whether a patch
/// branch is left; every other repair is followed by the first of the last two
/// commands.
pub open spec fn follow(setup: Setup, state: State) -> (Phase, StepView) {
    if state == State::NoAnchor {
        (Phase::Relisting, StepView::Run(branch_listing(setup)))
    } else {
        (Phase::Converging { index: 0 }, StepView::Run(converge_of(setup)[0].invocation))
    }
}

/// The move that answers `outcome` in `phase`.
///
/// A command that did not succeed ends the pass with its error, but for a
/// branch listing, which then shows no branch. A remote listing that shows
/// the expected `origin` is followed by the branch listing; one that shows
/// remotes but not that one ends the pass as foreign; one that shows no remote
/// at all is followed by the last two commands, with no repair. A branch
/// listing decides the state and so the repair. A command of the repair or of the end that
/// succeeded is followed by the next one, and the last of all by `Done`.
pub open spec fn react(setup: Setup, phase: Phase, outcome: OutcomeView) -> (Phase, StepView) {
    match phase {
        Phase::Idle => (Phase::Idle, StepView::Idle),
        Phase::Finished => (Phase::Finished, StepView::Idle),
        Phase::Remotes => match verdict_of(outcome) {
            Err(cause) => (
                Phase::Finished,
                StepView::Failed(SyncErrorView::Command { stage: Stage::ListRemotes, cause }),
            ),
            Ok(text) => if lists_origin(remotes_of(text), setup.url) {
                (Phase::Branches, StepView::Run(branch_listing(setup)))
            } else if remotes_of(text).len() > 0 {
                (
                    Phase::Finished,
                    StepView::Failed(
                        SyncErrorView::Foreign { directory: setup.root, url: setup.url },
                    ),
                )
            } else {
                enter(setup, State::NoRemote)
            },
        },
        Phase::Branches => enter(
            setup,
            state_of(
                Facts {
                    root_exists: true,
                    any_remote: true,
                    origin_matches: true,
                    anchor_present: shows_branch(outcome, setup.anchor),
                    patch_present: shows_branch(outcome, setup.patch),
                },
            ),
        ),
        Phase::Relisting => enter(
            setup,
            state_of(
                Facts {
                    root_exists: true,
                    any_remote: true,
                    origin_matches: true,
                    anchor_present: true,
                    patch_present: shows_branch(outcome, setup.patch),
                },
            ),
        ),
        Phase::Repairing { state, index } => {
            let repair = repair_of(setup, state);
            if index >= repair.len() {
                (Phase::Finished, StepView::Idle)
            } else {
                match verdict_of(outcome) {
                    Err(cause) => (
                        Phase::Finished,
                        StepView::Failed(
                            SyncErrorView::Command { stage: repair[index as int].stage, cause },
                        ),
                    ),
                    Ok(_) => if index + 1 < repair.len() {
                        (
                            Phase::Repairing { state, index: (index + 1) as usize },
                            StepView::Run(repair[index + 1].invocation),
                        )
                    } else {
                        follow(setup, state)
                    },
                }
            }
        },
        Phase::Converging { index } => {
            let end = converge_of(setup);
            if index >= end.len() {
                (Phase::Finished, StepView::Idle)
            } else {
                match verdict_of(outcome) {
                    Err(cause) => (
                        Phase::Finished,
                        StepView::Failed(
                            SyncErrorView::Command { stage: end[index as int].stage, cause },
                        ),
                    ),
                    Ok(_) => if index + 1 < end.len() {
                        (
                            Phase::Converging { index: (index + 1) as usize },
                            StepView::Run(end[index + 1].invocation),
                        )
                    } else {
                        (Phase::Finished, StepView::Done)
                    },
                }
            }
        },
    }
}

/// The pass on one working copy, as a machine that is told what happened and
/// says what to do next.
pub struct Synchronizer {
    git: Git,
    anchor: String,
    patch: String,
    url: String,
    revision: String,
    phase: Phase,
}

pub ghost struct Machine {
    pub setup: Setup,
    pub phase: Phase,
}

pub open spec fn planned_view(step: Option<Planned>) -> Option<PlannedView> {
    match step {
        Some(planned) => Some(planned@),
        None => None,
    }
}

pub open spec fn at(plan: Seq<PlannedView>, index: int) -> Option<PlannedView> {
    if 0 <= index < plan.len() {
        Some(plan[index])
    } else {
        None
    }
}

impl View for Synchronizer {
    type V = Machine;

    closed spec fn view(&self) -> Machine {
        Machine {
            setup: Setup {
                root: self.git@,
                anchor: self.anchor@,
                patch: self.patch@,
                url: self.url@,
                revision: self.revision@,
            },
            phase: self.phase,
        }
    }
}

impl Synchronizer {
    /// A machine for the working copy of `git`, which is to be a clone of `url`
    /// with the branch `patch` on `revision`, and which keeps the branch
    /// `anchor` to stand on while `patch` is rebuilt. No pass has begun.
    pub fn new(git: Git, anchor: String, patch: String, url: String, revision: String) -> (s:
        Synchronizer)
        ensures
            s@.setup == (Setup {
                root: git@,
                anchor: anchor@,
                patch: patch@,
                url: url@,
                revision: revision@,
            }),
            s@.phase == Phase::Idle,
    {
        Synchronizer { git, anchor, patch, url, revision, phase: Phase::Idle }
    }

    /// The working copy that the machine speaks of.
    pub fn git(&self) -> (git: &Git)
        ensures
            git@ == self@.setup.root,
    {
        &self.git
    }

    /// Where the pass stands.
    pub fn phase(&self) -> (phase: Phase)
        ensures
            phase == self@.phase,
    {
        self.phase
    }

    /// The command at `index` of the repair of `state`, if there is one.
    pub fn repair_step(&self, state: State, index: usize) -> (step: Option<Planned>)
        ensures
            planned_view(step) == at(repair_of(self@.setup, state), index as int),
    {
        match state {
            State::Foreign => None,
            State::Ready => None,
            State::NoRemote => None,
            State::NoAnchor => {
                if index == 0 {
                    Some(
                        Planned {
                            stage: Stage::CreateAnchor,
                            invocation: self.git.checkout_branch(self.anchor.as_str(), true, None),
                        },
                    )
                } else {
                    None
                }
            },
            State::StalePatch => {
                if index == 0 {
                    Some(Planned { stage: Stage::ResetTree, invocation: self.git.reset(true) })
                } else if index == 1 {
                    Some(Planned { stage: Stage::CleanTree, invocation: self.git.clean() })
                } else if index == 2 {
                    Some(
                        Planned {
                            stage: Stage::CheckoutAnchor,
                            invocation: self.git.checkout_branch(
                                self.anchor.as_str(),
                                false,
                                None,
                            ),
                        },
                    )
                } else if index == 3 {
                    Some(
                        Planned {
                            stage: Stage::DeletePatch,
                            invocation: self.git.delete_branch(self.patch.as_str()),
                        },
                    )
                } else {
                    None
                }
            },
            State::Fresh => {
                if index == 0 {
                    Some(Planned { stage: Stage::Initialize, invocation: self.git.init() })
                } else if index == 1 {
                    Some(
                        Planned {
                            stage: Stage::AddRemote,
                            invocation: self.git.add_remote("origin", self.url.as_str()),
                        },
                    )
                } else if index == 2 {
                    Some(
                        Planned {
                            stage: Stage::CreateFirstAnchor,
                            invocation: self.git.checkout_branch(self.anchor.as_str(), true, None),
                        },
                    )
                } else {
                    None
                }
            },
        }
    }

    /// The command at `index` of the two that end a pass, if there is one.
    pub fn converge_step(&self, index: usize) -> (step: Option<Planned>)
        ensures
            planned_view(step) == at(converge_of(self@.setup), index as int),
    {
        if index == 0 {
            Some(
                Planned {
                    stage: Stage::Fetch,
                    invocation: self.git.fetch("origin", Some(self.revision.as_str())),
                },
            )
        } else if index == 1 {
            Some(
                Planned {
                    stage: Stage::CreatePatch,
                    invocation: self.git.checkout_branch(
                        self.patch.as_str(),
                        true,
                        Some(self.revision.as_str()),
                    ),
                },
            )
        } else {
            None
        }
    }

    /// Begins a pass, whatever stood before, and says what to do first.
    pub fn start(&mut self, root_exists: bool) -> (step: Step)
        ensures
            final(self)@.setup == old(self)@.setup,
            (final(self)@.phase, step@) == begin(old(self)@.setup, root_exists),
    {
        if root_exists {
            self.phase = Phase::Remotes;
            Step::Run(self.git.list_remotes())
        } else {
            self.enter(State::Fresh)
        }
    }

    fn enter(&mut self, state: State) -> (step: Step)
        ensures
            final(self)@.setup == old(self)@.setup,
            (final(self)@.phase, step@) == enter(old(self)@.setup, state),
    {
        match self.repair_step(state, 0) {
            Some(planned) => {
                self.phase = Phase::Repairing { state, index: 0 };
                Step::Run(planned.invocation)
            },
            None => self.follow(state),
        }
    }

    fn follow(&mut self, state: State) -> (step: Step)
        ensures
            final(self)@.setup == old(self)@.setup,
            (final(self)@.phase, step@) == follow(old(self)@.setup, state),
    {
        if state == State::NoAnchor {
            self.phase = Phase::Relisting;
            Step::Run(self.git.list_branches())
        } else {
            self.phase = Phase::Converging { index: 0 };
            Step::Run(self.git.fetch("origin", Some(self.revision.as_str())))
        }
    }

    /// Takes the outcome of the command that was handed out last and says what
    /// to do next.
    pub fn advance(&mut self, outcome: &Outcome) -> (step: Step)
        ensures
            final(self)@.setup == old(self)@.setup,
            (final(self)@.phase, step@) == react(old(self)@.setup, old(self)@.phase, outcome@),
    {
        match self.phase {
            Phase::Idle => Step::Idle,
            Phase::Finished => Step::Idle,
            Phase::Remotes => {
                match verdict(outcome) {
                    Err(cause) => {
                        self.phase = Phase::Finished;
                        Step::Failed(SyncError::Command { stage: Stage::ListRemotes, cause })
                    },
                    Ok(text) => {
                        let remotes = parse_remotes(text.as_str());
                        if has_origin(&remotes, self.url.as_str()) {
                            self.phase = Phase::Branches;
                            Step::Run(self.git.list_branches())
                        } else if remotes.len() > 0 {
                            self.phase = Phase::Finished;
                            Step::Failed(
                                SyncError::Foreign {
                                    directory: self.git.directory().to_owned(),
                                    url: self.url.clone(),
                                },
                            )
                        } else {
                            self.enter(State::NoRemote)
                        }
                    },
                }
            },
            Phase::Branches => {
                let facts = Facts {
                    root_exists: true,
                    any_remote: true,
                    origin_matches: true,
                    anchor_present: self.git.has_branch(outcome, self.anchor.as_str()),
                    patch_present: self.git.has_branch(outcome, self.patch.as_str()),
                };
                self.enter(classify(facts))
            },
            Phase::Relisting => {
                let facts = Facts {
                    root_exists: true,
                    any_remote: true,
                    origin_matches: true,
                    anchor_present: true,
                    patch_present: self.git.has_branch(outcome, self.patch.as_str()),
                };
                self.enter(classify(facts))
            },
            Phase::Repairing { state, index } => {
                match self.repair_step(state, index) {
                    None => {
                        self.phase = Phase::Finished;
                        Step::Idle
                    },
                    Some(awaited) => {
                        match verdict(outcome) {
                            Err(cause) => {
                                self.phase = Phase::Finished;
                                Step::Failed(SyncError::Command { stage: awaited.stage, cause })
                            },
                            Ok(_) => {
                                let next = if index < usize::MAX {
                                    self.repair_step(state, index + 1)
                                } else {
                                    None
                                };
                                match next {
                                    Some(planned) => {
                                        self.phase = Phase::Repairing { state, index: index + 1 };
                                        Step::Run(planned.invocation)
                                    },
                                    None => self.follow(state),
                                }
                            },
                        }
                    },
                }
            },
            Phase::Converging { index } => {
                match self.converge_step(index) {
                    None => {
                        self.phase = Phase::Finished;
                        Step::Idle
                    },
                    Some(awaited) => {
                        match verdict(outcome) {
                            Err(cause) => {
                                self.phase = Phase::Finished;
                                Step::Failed(SyncError::Command { stage: awaited.stage, cause })
                            },
                            Ok(_) => {
                                let next = if index < usize::MAX {
                                    self.converge_step(index + 1)
                                } else {
                                    None
                                };
                                match next {
                                    Some(planned) => {
                                        self.phase = Phase::Converging { index: index + 1 };
                                        Step::Run(planned.invocation)
                                    },
                                    None => {
                                        self.phase = Phase::Finished;
                                        Step::Done
                                    },
                                }
                            },
                        }
                    },
                }
            },
        }
    }
}

} // verus!
