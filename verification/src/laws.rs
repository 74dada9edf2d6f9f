//! What holds of every pass and of every application of patches, proved from
//! the moves of the [`Synchronizer`] and of the [`PatchApplier`].
//!
//! [`Synchronizer`]: crate::sync::Synchronizer
//! [`PatchApplier`]: crate::patch::PatchApplier

use crate::git::{remotes_of, shows_branch, verdict_of, InvocationView, OutcomeView};
use crate::patch::{answer, apply_command, offer, Progress};
use crate::sync::{
    begin, branch_listing, converge_of, create_anchor, lists_origin, react, remote_listing,
    repair_of, Phase, PlannedView, Setup, Stage, State, StepView, SyncErrorView,
};
use crate::text::{contains, occurs_at};
use vstd::prelude::*;

verus! {

/// A branch is found by any run of characters that its listed name holds. So
/// a name is found though the listing wraps it in quotes, and so is it found in
/// a longer name that merely holds it: presence by this test does not mean that
/// a branch of exactly that name exists.
pub proof fn law_name_is_found_in_what_holds_it(
    before: Seq<char>,
    name: Seq<char>,
    after: Seq<char>,
)
    ensures
        contains(before + name + after, name),
{
    let listed = before + name + after;
    let at = before.len() as int;
    assert(listed.subrange(at, at + name.len()) =~= name);
    assert(occurs_at(listed, name, at));
}

/// A listed name that is no longer than the name looked for is found only if
/// it is that name.
pub proof fn law_name_of_equal_length_is_found_only_if_equal(listed: Seq<char>, name: Seq<char>)
    requires
        contains(listed, name),
        listed.len() <= name.len(),
    ensures
        listed == name,
{
    let at = choose|at: int| occurs_at(listed, name, at);
    assert(listed.subrange(at, at + name.len()) =~= listed);
}

/// The phase reached, and the moves made, when `outcomes` are reported one
/// after another from `phase` on.
pub open spec fn run(setup: Setup, phase: Phase, outcomes: Seq<OutcomeView>) -> (
    Phase,
    Seq<StepView>,
)
    decreases outcomes.len(),
{
    if outcomes.len() == 0 {
        (phase, Seq::empty())
    } else {
        let (before, steps) = run(setup, phase, outcomes.drop_last());
        let (after, step) = react(setup, before, outcomes.last());
        (after, steps.push(step))
    }
}

/// A whole pass: its first move, and the moves that answer `outcomes`.
pub open spec fn pass(setup: Setup, root_exists: bool, outcomes: Seq<OutcomeView>) -> (
    Phase,
    Seq<StepView>,
) {
    let (phase, first) = begin(setup, root_exists);
    let (end, steps) = run(setup, phase, outcomes);
    (end, seq![first] + steps)
}

/// The commands among `steps`, in order.
pub open spec fn commands(steps: Seq<StepView>) -> Seq<InvocationView>
    decreases steps.len(),
{
    if steps.len() == 0 {
        Seq::empty()
    } else {
        let before = commands(steps.drop_last());
        match steps.last() {
            StepView::Run(invocation) => before.push(invocation),
            _ => before,
        }
    }
}

/// The commands of a plan, in order.
pub open spec fn commands_of(plan: Seq<PlannedView>) -> Seq<InvocationView> {
    Seq::new(plan.len(), |i: int| plan[i].invocation)
}

/// Whether `all` ends with `tail`.
pub open spec fn ends_with(all: Seq<InvocationView>, tail: Seq<InvocationView>) -> bool {
    &&& tail.len() <= all.len()
    &&& all.subrange(all.len() - tail.len(), all.len() as int) == tail
}

/// Whether `command` deletes `branch`.
pub open spec fn deletes(command: InvocationView, branch: Seq<char>) -> bool {
    command.subcommand == "branch"@ && command.args == seq!["-D"@, branch]
}

/// Whether an outcome is that of a command that succeeded.
pub open spec fn ok(outcome: OutcomeView) -> bool {
    verdict_of(outcome) is Ok
}

/// One more move adds its command, if it is to run one, and nothing else.
pub proof fn lemma_commands_push(steps: Seq<StepView>, step: StepView)
    ensures
        commands(steps.push(step)) == match step {
            StepView::Run(invocation) => commands(steps).push(invocation),
            _ => commands(steps),
        },
{
    assert(steps.push(step).drop_last() =~= steps);
}

/// What holds between the phase of a pass and the moves made so far: while the
/// last two commands are under way the commands handed out end with as many of
/// them as were handed out, and a pass that has reported `Done` is over and has
/// handed out both.
spec fn on_course(setup: Setup, phase: Phase, steps: Seq<StepView>) -> bool {
    let end = commands_of(converge_of(setup));
    &&& phase matches Phase::Converging { index } ==> index < 2 && ends_with(
        commands(steps),
        end.take(index + 1),
    )
    &&& steps.len() > 0 && steps.last() == StepView::Done ==> phase == Phase::Finished
        && ends_with(commands(steps), end)
}

proof fn lemma_on_course_step(
    setup: Setup,
    phase: Phase,
    steps: Seq<StepView>,
    outcome: OutcomeView,
)
    requires
        on_course(setup, phase, steps),
    ensures
        on_course(setup, react(setup, phase, outcome).0, steps.push(react(setup, phase, outcome).1)),
{
    let end = commands_of(converge_of(setup));
    let (after, step) = react(setup, phase, outcome);
    let all = commands(steps);
    let n = all.len() as int;
    lemma_commands_push(steps, step);
    assert(steps.push(step).last() == step);
    if let Phase::Converging { index } = after {
        if index == 0 {
            assert(step == StepView::Run(end[0]));
            assert(all.push(end[0]).subrange(n, n + 1) =~= end.take(1));
        } else {
            assert(phase == Phase::Converging { index: 0 });
            assert(index == 1);
            assert(step == StepView::Run(end[1]));
            assert(all.subrange(n - 1, n) == end.take(1));
            assert(all[n - 1] == all.subrange(n - 1, n)[0]);
            assert(all.push(end[1]).subrange(n - 1, n + 1) =~= end.take(2));
        }
    }
    if step == StepView::Done {
        assert(phase == Phase::Converging { index: 1 });
        assert(end.take(2) =~= end);
    }
}

proof fn lemma_pass_on_course(setup: Setup, root_exists: bool, outcomes: Seq<OutcomeView>)
    ensures
        on_course(setup, pass(setup, root_exists, outcomes).0, pass(setup, root_exists, outcomes).1),
    decreases outcomes.len(),
{
    let (phase, first) = begin(setup, root_exists);
    if outcomes.len() == 0 {
        assert(seq![first] + Seq::<StepView>::empty() =~= seq![first]);
        assert(seq![first].last() == first);
    } else {
        lemma_pass_on_course(setup, root_exists, outcomes.drop_last());
        let (before, steps) = run(setup, phase, outcomes.drop_last());
        let (after, step) = react(setup, before, outcomes.last());
        lemma_on_course_step(setup, before, seq![first] + steps, outcomes.last());
        assert((seq![first] + steps).push(step) =~= seq![first] + steps.push(step));
    }
}

/// Every pass that reports `Done` has converged: whatever the root held before
/// and whatever the listings showed, its last two commands fetched the pinned
/// revision alone from `origin` and created the patch branch on it, and the
/// pass is over. So two passes for one revision end alike, and a pass for
/// another revision ends on that revision.
pub proof fn law_done_means_converged(setup: Setup, root_exists: bool, outcomes: Seq<OutcomeView>)
    requires
        pass(setup, root_exists, outcomes).1.last() == StepView::Done,
    ensures
        pass(setup, root_exists, outcomes).0 == Phase::Finished,
        ends_with(
            commands(pass(setup, root_exists, outcomes).1),
            commands_of(converge_of(setup)),
        ),
{
    lemma_pass_on_course(setup, root_exists, outcomes);
}

/// A pass of which nothing was reported yet has made its first move only.
pub proof fn lemma_pass_begins(setup: Setup, root_exists: bool, outcomes: Seq<OutcomeView>)
    ensures
        pass(setup, root_exists, outcomes.take(0)) == (
            begin(setup, root_exists).0,
            seq![begin(setup, root_exists).1],
        ),
        begin(setup, root_exists).1 matches StepView::Run(first) && commands(
            pass(setup, root_exists, outcomes.take(0)).1,
        ) == seq![first],
{
    let (phase, first) = begin(setup, root_exists);
    assert(outcomes.take(0) =~= Seq::<OutcomeView>::empty());
    assert(seq![first] + Seq::<StepView>::empty() =~= seq![first]);
    assert(seq![first].drop_last() =~= Seq::<StepView>::empty());
    assert(commands(seq![first].drop_last()) =~= Seq::<InvocationView>::empty());
    assert(seq![first].last() == first);
    if let StepView::Run(command) = first {
        assert(Seq::<InvocationView>::empty().push(command) =~= seq![command]);
    }
}

/// A pass of which one more outcome is reported makes one more move, and
/// hands out one more command where that move is to run one.
pub proof fn lemma_pass_goes_on(
    setup: Setup,
    root_exists: bool,
    outcomes: Seq<OutcomeView>,
    k: int,
)
    requires
        0 <= k < outcomes.len(),
    ensures
        ({
            let (before, steps) = pass(setup, root_exists, outcomes.take(k));
            let (after, step) = react(setup, before, outcomes[k]);
            &&& pass(setup, root_exists, outcomes.take(k + 1)) == (after, steps.push(step))
            &&& commands(steps.push(step)) == match step {
                StepView::Run(command) => commands(steps).push(command),
                _ => commands(steps),
            }
        }),
{
    let (phase, first) = begin(setup, root_exists);
    let (before, moves) = run(setup, phase, outcomes.take(k));
    let (after, step) = react(setup, before, outcomes[k]);
    assert(outcomes.take(k + 1).drop_last() =~= outcomes.take(k));
    assert(outcomes.take(k + 1).last() == outcomes[k]);
    assert(seq![first] + moves.push(step) =~= (seq![first] + moves).push(step));
    lemma_commands_push(seq![first] + moves, step);
}

/// A directory that is not ours is left alone. Where the root exists and its
/// remote listing shows at least one remote, but none named `origin` with the
/// configured url, the pass ends at once with the error that names the
/// directory and the url. The remote listing is the one command that it hands
/// out, then and ever after.
pub proof fn law_foreign_directory_is_left_alone(
    setup: Setup,
    listing: OutcomeView,
    later: Seq<OutcomeView>,
)
    requires
        verdict_of(listing) matches Ok(text) && remotes_of(text).len() > 0 && !lists_origin(
            remotes_of(text),
            setup.url,
        ),
    ensures
        ({
            let (phase, steps) = pass(setup, true, seq![listing] + later);
            &&& phase == Phase::Finished
            &&& steps.len() == later.len() + 2
            &&& steps[0] == StepView::Run(remote_listing(setup))
            &&& steps[1] == StepView::Failed(
                SyncErrorView::Foreign { directory: setup.root, url: setup.url },
            )
            &&& forall|i: int| 2 <= i < steps.len() ==> steps[i] == StepView::Idle
            &&& commands(steps) == seq![remote_listing(setup)]
        }),
    decreases later.len(),
{
    let outcomes = seq![listing] + later;
    let n = later.len() as int;
    if n == 0 {
        lemma_pass_begins(setup, true, outcomes);
        lemma_pass_goes_on(setup, true, outcomes, 0);
        assert(outcomes.take(1) =~= outcomes);
    } else {
        law_foreign_directory_is_left_alone(setup, listing, later.drop_last());
        let shorter = seq![listing] + later.drop_last();
        assert(outcomes.take(n) =~= shorter);
        lemma_pass_goes_on(setup, true, outcomes, n);
        assert(outcomes.take(n + 1) =~= outcomes);
    }
}

/// Reporting `outcomes` is reporting the first `k` of them and then the rest.
proof fn lemma_run_splits(setup: Setup, phase: Phase, outcomes: Seq<OutcomeView>, k: int)
    requires
        0 <= k <= outcomes.len(),
    ensures
        run(setup, phase, outcomes) == ({
            let (middle, before) = run(setup, phase, outcomes.take(k));
            let (end, after) = run(setup, middle, outcomes.skip(k));
            (end, before + after)
        }),
    decreases outcomes.len(),
{
    let (middle, before) = run(setup, phase, outcomes.take(k));
    if k == outcomes.len() {
        assert(outcomes.take(k) =~= outcomes);
        assert(outcomes.skip(k) =~= Seq::<OutcomeView>::empty());
        assert(before + Seq::<StepView>::empty() =~= before);
    } else {
        let shorter = outcomes.drop_last();
        lemma_run_splits(setup, phase, shorter, k);
        assert(shorter.take(k) =~= outcomes.take(k));
        assert(shorter.skip(k) =~= outcomes.skip(k).drop_last());
        assert(outcomes.skip(k).last() == outcomes.last());
        let (near, most) = run(setup, middle, shorter.skip(k));
        let step = react(setup, near, outcomes.last()).1;
        assert(before + most.push(step) =~= (before + most).push(step));
    }
}

/// A pass that is over, or has not begun, makes no move but `Idle`.
proof fn lemma_no_move_when_over(setup: Setup, phase: Phase, outcomes: Seq<OutcomeView>)
    requires
        phase == Phase::Idle || phase == Phase::Finished,
    ensures
        run(setup, phase, outcomes).0 == phase,
        run(setup, phase, outcomes).1.len() == outcomes.len(),
        forall|i: int|
            0 <= i < outcomes.len() ==> run(setup, phase, outcomes).1[i] == StepView::Idle,
    decreases outcomes.len(),
{
    if outcomes.len() > 0 {
        lemma_no_move_when_over(setup, phase, outcomes.drop_last());
    }
}

/// A pass reports `Done` only if every command that it handed out succeeded,
/// but for the branch listings, whose failure counts as a listing without
/// branches. The outcome at `k` answers the command that was handed out in the
/// phase reached after the first `k` outcomes.
pub proof fn law_done_means_every_command_succeeded(
    setup: Setup,
    root_exists: bool,
    outcomes: Seq<OutcomeView>,
    k: int,
)
    requires
        pass(setup, root_exists, outcomes).1.last() == StepView::Done,
        0 <= k < outcomes.len(),
        pass(setup, root_exists, outcomes.take(k)).0 != Phase::Branches,
        pass(setup, root_exists, outcomes.take(k)).0 != Phase::Relisting,
    ensures
        ok(outcomes[k]),
{
    if !ok(outcomes[k]) {
        let (phase, first) = begin(setup, root_exists);
        let (awaiting, before) = run(setup, phase, outcomes.take(k));
        let (after, step) = react(setup, awaiting, outcomes[k]);
        law_failed_command_ends_the_pass(setup, awaiting, outcomes[k]);
        lemma_pass_goes_on(setup, root_exists, outcomes, k);
        lemma_run_splits(setup, phase, outcomes, k + 1);
        let rest = outcomes.skip(k + 1);
        lemma_no_move_when_over(setup, after, rest);
        let tail = run(setup, after, rest).1;
        let all = pass(setup, root_exists, outcomes).1;
        assert(all == seq![first] + (before.push(step) + tail));
        if rest.len() == 0 {
            assert(all.last() == step);
        } else {
            assert(all.last() == tail[rest.len() - 1]);
        }
    }
}

/// Only a root that lists a remote can be foreign. Where the root exists and
/// its remote listing succeeds and shows no remote at all, the pass reports no
/// foreign directory and repairs nothing: it goes straight on to fetch the
/// pinned revision and to create the patch branch on it, and reports `Done`
/// where both succeed.
pub proof fn law_root_without_remotes_is_not_foreign(
    setup: Setup,
    listing: OutcomeView,
    outcomes: Seq<OutcomeView>,
)
    requires
        verdict_of(listing) matches Ok(text) && remotes_of(text).len() == 0,
        outcomes.len() == 2,
        ok(outcomes[0]),
        ok(outcomes[1]),
    ensures
        react(setup, Phase::Remotes, listing) == (
            Phase::Converging { index: 0 },
            StepView::Run(converge_of(setup)[0].invocation),
        ),
        ({
            let (phase, steps) = pass(setup, true, seq![listing] + outcomes);
            &&& phase == Phase::Finished
            &&& steps.last() == StepView::Done
            &&& commands(steps) == seq![remote_listing(setup)] + commands_of(converge_of(setup))
        }),
{
    let all = seq![listing] + outcomes;
    lemma_pass_begins(setup, true, all);
    lemma_pass_goes_on(setup, true, all, 0);
    assert(pass(setup, true, all.take(1)).0 == Phase::Converging { index: 0 });
    assert(all[1] == outcomes[0]);
    lemma_pass_goes_on(setup, true, all, 1);
    assert(pass(setup, true, all.take(2)).0 == Phase::Converging { index: 1 });
    assert(all[2] == outcomes[1]);
    lemma_pass_goes_on(setup, true, all, 2);
    assert(all.take(3) =~= all);
    assert(commands(pass(setup, true, all).1) =~= seq![remote_listing(setup)] + commands_of(
        converge_of(setup),
    ));
}

/// A pass on a root that does not exist, each of whose five commands succeeds,
/// initialises the repository, adds the remote, creates the anchor branch,
/// fetches the pinned revision and creates the patch branch on it, in this
/// order, and then reports `Done`.
pub proof fn law_fresh_root_is_built(setup: Setup, outcomes: Seq<OutcomeView>)
    requires
        outcomes.len() == 5,
        forall|i: int| 0 <= i < 5 ==> ok(#[trigger] outcomes[i]),
    ensures
        ({
            let (phase, steps) = pass(setup, false, outcomes);
            &&& phase == Phase::Finished
            &&& steps.last() == StepView::Done
            &&& commands(steps) == commands_of(repair_of(setup, State::Fresh) + converge_of(setup))
        }),
{
    let plan = commands_of(repair_of(setup, State::Fresh) + converge_of(setup));
    lemma_pass_begins(setup, false, outcomes);
    assert(pass(setup, false, outcomes.take(0)).0 == Phase::Repairing {
        state: State::Fresh,
        index: 0,
    });
    assert(ok(outcomes[0]));
    lemma_pass_goes_on(setup, false, outcomes, 0);
    assert(pass(setup, false, outcomes.take(1)).0 == Phase::Repairing {
        state: State::Fresh,
        index: 1,
    });
    assert(ok(outcomes[1]));
    lemma_pass_goes_on(setup, false, outcomes, 1);
    assert(pass(setup, false, outcomes.take(2)).0 == Phase::Repairing {
        state: State::Fresh,
        index: 2,
    });
    assert(ok(outcomes[2]));
    lemma_pass_goes_on(setup, false, outcomes, 2);
    assert(pass(setup, false, outcomes.take(3)).0 == Phase::Converging { index: 0 });
    assert(ok(outcomes[3]));
    lemma_pass_goes_on(setup, false, outcomes, 3);
    assert(pass(setup, false, outcomes.take(4)).0 == Phase::Converging { index: 1 });
    assert(ok(outcomes[4]));
    lemma_pass_goes_on(setup, false, outcomes, 4);
    assert(outcomes.take(5) =~= outcomes);
    assert(commands(pass(setup, false, outcomes).1) =~= plan);
}

/// A pass over a patch branch that an earlier pass has left, be that pass
/// complete or cut short, rebuilds it. Where the root is ours, the branch
/// listing shows both the anchor and the patch branch, and each of the six
/// commands succeeds, the pass resets and cleans the working tree, checks out
/// the anchor branch, deletes the patch branch, fetches the pinned revision and
/// creates the patch branch on it, in this order, and then reports `Done`.
pub proof fn law_stale_patch_branch_is_rebuilt(
    setup: Setup,
    remotes: OutcomeView,
    branches: OutcomeView,
    outcomes: Seq<OutcomeView>,
)
    requires
        verdict_of(remotes) matches Ok(text) && lists_origin(remotes_of(text), setup.url),
        shows_branch(branches, setup.anchor),
        shows_branch(branches, setup.patch),
        outcomes.len() == 6,
        forall|i: int| 0 <= i < 6 ==> ok(#[trigger] outcomes[i]),
    ensures
        ({
            let (phase, steps) = pass(setup, true, seq![remotes, branches] + outcomes);
            &&& phase == Phase::Finished
            &&& steps.last() == StepView::Done
            &&& commands(steps) == seq![remote_listing(setup), branch_listing(setup)]
                + commands_of(repair_of(setup, State::StalePatch) + converge_of(setup))
        }),
{
    let all = seq![remotes, branches] + outcomes;
    let plan = seq![remote_listing(setup), branch_listing(setup)] + commands_of(
        repair_of(setup, State::StalePatch) + converge_of(setup),
    );
    assert forall|i: int| 2 <= i < 8 implies ok(#[trigger] all[i]) by {
        assert(all[i] == outcomes[i - 2]);
    }
    lemma_pass_begins(setup, true, all);
    lemma_pass_goes_on(setup, true, all, 0);
    assert(pass(setup, true, all.take(1)).0 == Phase::Branches);
    lemma_pass_goes_on(setup, true, all, 1);
    assert(pass(setup, true, all.take(2)).0 == Phase::Repairing {
        state: State::StalePatch,
        index: 0,
    });
    assert(ok(all[2]));
    lemma_pass_goes_on(setup, true, all, 2);
    assert(pass(setup, true, all.take(3)).0 == Phase::Repairing {
        state: State::StalePatch,
        index: 1,
    });
    assert(ok(all[3]));
    lemma_pass_goes_on(setup, true, all, 3);
    assert(pass(setup, true, all.take(4)).0 == Phase::Repairing {
        state: State::StalePatch,
        index: 2,
    });
    assert(ok(all[4]));
    lemma_pass_goes_on(setup, true, all, 4);
    assert(pass(setup, true, all.take(5)).0 == Phase::Repairing {
        state: State::StalePatch,
        index: 3,
    });
    assert(ok(all[5]));
    lemma_pass_goes_on(setup, true, all, 5);
    assert(pass(setup, true, all.take(6)).0 == Phase::Converging { index: 0 });
    assert(ok(all[6]));
    lemma_pass_goes_on(setup, true, all, 6);
    assert(pass(setup, true, all.take(7)).0 == Phase::Converging { index: 1 });
    assert(ok(all[7]));
    lemma_pass_goes_on(setup, true, all, 7);
    assert(all.take(8) =~= all);
    assert(commands(pass(setup, true, all).1) =~= plan);
}

/// A clone of ours without an anchor branch gets one before anything else is
/// changed, and is then looked at anew. Where the branch listing does not show
/// the anchor branch, the pass creates it on the current tip and lists the
/// branches once more. What follows goes by that second listing alone: where
/// it shows the patch branch, the repair of a stale patch branch, and in either
/// case the last two commands.
pub proof fn law_missing_anchor_is_created_first(
    setup: Setup,
    remotes: OutcomeView,
    branches: OutcomeView,
    created: OutcomeView,
    relisted: OutcomeView,
)
    requires
        verdict_of(remotes) matches Ok(text) && lists_origin(remotes_of(text), setup.url),
        !shows_branch(branches, setup.anchor),
        ok(created),
    ensures
        ({
            let (phase, steps) = pass(setup, true, seq![remotes, branches, created, relisted]);
            let state = if shows_branch(relisted, setup.patch) {
                State::StalePatch
            } else {
                State::Ready
            };
            &&& phase == if state == State::StalePatch {
                Phase::Repairing { state, index: 0 }
            } else {
                Phase::Converging { index: 0 }
            }
            &&& commands(steps) == seq![
                remote_listing(setup),
                branch_listing(setup),
                create_anchor(setup),
                branch_listing(setup),
                (repair_of(setup, state) + converge_of(setup))[0].invocation,
            ]
        }),
{
    let all = seq![remotes, branches, created, relisted];
    lemma_pass_begins(setup, true, all);
    lemma_pass_goes_on(setup, true, all, 0);
    assert(pass(setup, true, all.take(1)).0 == Phase::Branches);
    lemma_pass_goes_on(setup, true, all, 1);
    assert(pass(setup, true, all.take(2)).0 == Phase::Repairing {
        state: State::NoAnchor,
        index: 0,
    });
    lemma_pass_goes_on(setup, true, all, 2);
    assert(pass(setup, true, all.take(3)).0 == Phase::Relisting);
    lemma_pass_goes_on(setup, true, all, 3);
    assert(all.take(4) =~= all);
    let state = if shows_branch(relisted, setup.patch) {
        State::StalePatch
    } else {
        State::Ready
    };
    assert(commands(pass(setup, true, all).1) =~= seq![
        remote_listing(setup),
        branch_listing(setup),
        create_anchor(setup),
        branch_listing(setup),
        (repair_of(setup, state) + converge_of(setup))[0].invocation,
    ]);
}

/// A command that did not succeed ends the pass, unless it was a branch
/// listing. The error names what the command was for and carries its cause;
/// nothing is undone and nothing more is handed out.
pub proof fn law_failed_command_ends_the_pass(setup: Setup, phase: Phase, outcome: OutcomeView)
    requires
        verdict_of(outcome) is Err,
        phase != Phase::Branches,
        phase != Phase::Relisting,
    ensures
        react(setup, phase, outcome).0 == phase || react(setup, phase, outcome).0
            == Phase::Finished,
        !(react(setup, phase, outcome).1 is Run),
        !(react(setup, phase, outcome).1 is Done),
        phase matches Phase::Repairing { state, index } ==> index < repair_of(setup, state).len()
            ==> react(setup, phase, outcome).1 == StepView::Failed(
            SyncErrorView::Command {
                stage: repair_of(setup, state)[index as int].stage,
                cause: verdict_of(outcome)->Err_0,
            },
        ),
        phase matches Phase::Converging { index } ==> index < 2 ==> react(setup, phase, outcome).1
            == StepView::Failed(
            SyncErrorView::Command {
                stage: converge_of(setup)[index as int].stage,
                cause: verdict_of(outcome)->Err_0,
            },
        ),
        phase == Phase::Remotes ==> react(setup, phase, outcome).1 == StepView::Failed(
            SyncErrorView::Command {
                stage: Stage::ListRemotes,
                cause: verdict_of(outcome)->Err_0,
            },
        ),
{
}

/// A pass that is over stays over: it hands out no command and reports nothing
/// more, whatever it is told.
pub proof fn law_finished_pass_stays_finished(setup: Setup, outcome: OutcomeView)
    ensures
        react(setup, Phase::Finished, outcome) == (Phase::Finished, StepView::Idle),
{
}

proof fn lemma_subcommands_differ()
    ensures
        "branch"@ != "remote"@,
        "branch"@ != "checkout"@,
        "branch"@ != "reset"@,
        "branch"@ != "clean"@,
        "branch"@ != "init"@,
        "branch"@ != "fetch"@,
{
    reveal_strlit("branch");
    reveal_strlit("remote");
    reveal_strlit("checkout");
    reveal_strlit("reset");
    reveal_strlit("clean");
    reveal_strlit("init");
    reveal_strlit("fetch");
    assert("branch"@[0] == 'b');
    assert("remote"@[0] == 'r');
}

proof fn lemma_move_deletes_patch_only(step: StepView, setup: Setup, branch: Seq<char>)
    requires
        step matches StepView::Run(command) && deletes(command, branch),
        step == StepView::Run(remote_listing(setup)) || step == StepView::Run(branch_listing(setup))
            || (exists|state: State, i: int|
            0 <= i < repair_of(setup, state).len() && step == StepView::Run(
                #[trigger] repair_of(setup, state)[i].invocation,
            )) || step == StepView::Run(converge_of(setup)[0].invocation) || step == StepView::Run(
            converge_of(setup)[1].invocation,
        ),
    ensures
        branch == setup.patch,
{
    lemma_subcommands_differ();
    let command = step->Run_0;
    assert(command.args.len() == 2);
    assert(command.args[1] == branch);
    if step == StepView::Run(remote_listing(setup)) {
    } else if step == StepView::Run(branch_listing(setup)) {
        assert(branch_listing(setup).args.len() == 1);
    } else if step == StepView::Run(converge_of(setup)[0].invocation) {
    } else if step == StepView::Run(converge_of(setup)[1].invocation) {
    } else {
        let (state, i) = choose|state: State, i: int|
            0 <= i < repair_of(setup, state).len() && step == StepView::Run(
                #[trigger] repair_of(setup, state)[i].invocation,
            );
        if state == State::StalePatch && i == 3 {
            assert(command.args == seq!["-D"@, setup.patch]);
            assert(seq!["-D"@, setup.patch][1] == setup.patch);
        }
    }
}

/// Every command that a move hands out is a listing, a command of a repair, or
/// one of the last two.
proof fn lemma_moves_are_planned(setup: Setup, phase: Phase, outcome: OutcomeView)
    ensures
        ({
            let step = react(setup, phase, outcome).1;
            step is Run ==> step == StepView::Run(branch_listing(setup)) || (exists|
                state: State,
                i: int,
            |
                0 <= i < repair_of(setup, state).len() && step == StepView::Run(
                    #[trigger] repair_of(setup, state)[i].invocation,
                )) || step == StepView::Run(converge_of(setup)[0].invocation) || step
                == StepView::Run(converge_of(setup)[1].invocation)
        }),
{
    let step = react(setup, phase, outcome).1;
    if step is Run {
        match phase {
            Phase::Branches | Phase::Relisting => {
                let state = if step == StepView::Run(
                    repair_of(setup, State::NoAnchor)[0].invocation,
                ) {
                    State::NoAnchor
                } else {
                    State::StalePatch
                };
                if step != StepView::Run(converge_of(setup)[0].invocation) && step
                    != StepView::Run(branch_listing(setup)) {
                    assert(step == StepView::Run(repair_of(setup, state)[0].invocation));
                }
            },
            Phase::Repairing { state, index } => {
                if index + 1 < repair_of(setup, state).len() {
                    assert(step == StepView::Run(repair_of(setup, state)[index + 1].invocation));
                }
            },
            _ => {},
        }
    }
}

/// The patch branch is the only branch that a pass ever deletes. So the
/// anchor branch, once it is there, stays, unless it goes by the name of the
/// patch branch.
pub proof fn law_only_the_patch_branch_is_deleted(
    setup: Setup,
    root_exists: bool,
    outcomes: Seq<OutcomeView>,
    i: int,
    branch: Seq<char>,
)
    requires
        0 <= i < commands(pass(setup, root_exists, outcomes).1).len(),
        deletes(commands(pass(setup, root_exists, outcomes).1)[i], branch),
    ensures
        branch == setup.patch,
    decreases outcomes.len(),
{
    let (phase, first) = begin(setup, root_exists);
    if outcomes.len() == 0 {
        assert(outcomes.take(0) =~= outcomes);
        lemma_pass_begins(setup, root_exists, outcomes);
        assert(first == StepView::Run(remote_listing(setup)) || first == StepView::Run(
            repair_of(setup, State::Fresh)[0].invocation,
        ));
        lemma_move_deletes_patch_only(first, setup, branch);
    } else {
        let n = outcomes.len() - 1;
        let shorter = outcomes.take(n);
        let (before, steps) = pass(setup, root_exists, shorter);
        let (after, step) = react(setup, before, outcomes[n]);
        lemma_pass_goes_on(setup, root_exists, outcomes, n);
        assert(outcomes.take(n + 1) =~= outcomes);
        if i < commands(steps).len() {
            law_only_the_patch_branch_is_deleted(setup, root_exists, shorter, i, branch);
        } else {
            lemma_moves_are_planned(setup, before, outcomes[n]);
            lemma_move_deletes_patch_only(step, setup, branch);
        }
    }
}

/// The progress reached, and the moves made, when the patches are begun and
/// `outcomes` are reported one after another.
pub open spec fn applied(root: Seq<char>, patches: Seq<Seq<char>>, outcomes: Seq<OutcomeView>) -> (
    Progress,
    Seq<StepView>,
)
    decreases outcomes.len(),
{
    if outcomes.len() == 0 {
        (offer(root, patches, 0).0, seq![offer(root, patches, 0).1])
    } else {
        let (before, steps) = applied(root, patches, outcomes.drop_last());
        let (after, step) = answer(root, patches, before, outcomes.last());
        (after, steps.push(step))
    }
}

/// The commands that apply the first `n` of `patches`, in order.
pub open spec fn apply_commands(root: Seq<char>, patches: Seq<Seq<char>>, n: int) -> Seq<
    InvocationView,
> {
    Seq::new(n as nat, |i: int| apply_command(root, patches[i]))
}

/// Patches are applied in the order in which they are given, none twice and
/// none passed over, as long as each applies. After `n` patches that applied
/// the next one is under way, or the work is done where `n` is all of them.
pub proof fn law_patches_are_applied_in_order(
    root: Seq<char>,
    patches: Seq<Seq<char>>,
    outcomes: Seq<OutcomeView>,
)
    requires
        patches.len() <= usize::MAX,
        outcomes.len() <= patches.len(),
        forall|i: int| 0 <= i < outcomes.len() ==> ok(#[trigger] outcomes[i]),
    ensures
        ({
            let n = outcomes.len() as int;
            let (progress, steps) = applied(root, patches, outcomes);
            &&& steps.len() == n + 1
            &&& (progress, steps.last()) == offer(root, patches, n)
            &&& n < patches.len() ==> commands(steps) == apply_commands(root, patches, n + 1)
            &&& n == patches.len() ==> commands(steps) == apply_commands(root, patches, n)
        }),
    decreases outcomes.len(),
{
    let n = outcomes.len() as int;
    if n == 0 {
        let first = offer(root, patches, 0).1;
        assert(seq![first].drop_last() =~= Seq::<StepView>::empty());
        assert(commands(seq![first].drop_last()) =~= Seq::<InvocationView>::empty());
        assert(seq![first].last() == first);
        if 0 < patches.len() {
            assert(commands(seq![first]) =~= apply_commands(root, patches, 1));
        } else {
            assert(commands(seq![first]) =~= apply_commands(root, patches, 0));
        }
    } else {
        let shorter = outcomes.drop_last();
        law_patches_are_applied_in_order(root, patches, shorter);
        let (before, steps) = applied(root, patches, shorter);
        let (after, step) = answer(root, patches, before, outcomes.last());
        assert(ok(outcomes[n - 1]));
        lemma_commands_push(steps, step);
        assert(steps.push(step).last() == step);
        if n < patches.len() {
            assert(commands(steps).push(apply_command(root, patches[n])) =~= apply_commands(
                root,
                patches,
                n + 1,
            ));
        }
    }
}

/// The first patch that does not apply ends the work. The error names that
/// patch and carries the cause; the patches before it were applied, in order,
/// and none after it is tried.
pub proof fn law_first_failing_patch_ends_the_work(
    root: Seq<char>,
    patches: Seq<Seq<char>>,
    outcomes: Seq<OutcomeView>,
    failure: OutcomeView,
)
    requires
        patches.len() <= usize::MAX,
        outcomes.len() < patches.len(),
        forall|i: int| 0 <= i < outcomes.len() ==> ok(#[trigger] outcomes[i]),
        verdict_of(failure) is Err,
    ensures
        ({
            let n = outcomes.len() as int;
            let (progress, steps) = applied(root, patches, outcomes.push(failure));
            &&& progress == Progress::Finished
            &&& steps.last() == StepView::Failed(
                SyncErrorView::Patch { path: patches[n], cause: verdict_of(failure)->Err_0 },
            )
            &&& commands(steps) == apply_commands(root, patches, n + 1)
        }),
{
    law_patches_are_applied_in_order(root, patches, outcomes);
    assert(outcomes.push(failure).drop_last() =~= outcomes);
    let (before, steps) = applied(root, patches, outcomes);
    let (after, step) = answer(root, patches, before, failure);
    lemma_commands_push(steps, step);
}

} // verus!
