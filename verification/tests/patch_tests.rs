use repo_sync::git::{Git, GitError, Invocation, Outcome};
use repo_sync::patch::{PatchApplier, Progress};
use repo_sync::sync::{Step, SyncError};

fn applier(paths: &[&str]) -> PatchApplier {
    PatchApplier::new(
        Git::new("tree".to_string()),
        paths.iter().map(|path| path.to_string()).collect(),
    )
}

fn apply(path: &str) -> Step {
    Step::Run(Invocation {
        root: "tree".to_string(),
        git_dir: ".git".to_string(),
        subcommand: "apply".to_string(),
        args: vec![path.to_string()],
        create_root: false,
    })
}

fn success() -> Outcome {
    Outcome::Exited { success: true, stdout: Vec::new(), stderr: Vec::new() }
}

fn failure(stderr: &str) -> Outcome {
    Outcome::Exited { success: false, stdout: Vec::new(), stderr: stderr.as_bytes().to_vec() }
}

#[test]
fn patches_are_applied_in_the_order_given() {
    let mut applier = applier(&["p/b.patch", "p/a.patch", "p/c.patch"]);
    assert_eq!(applier.progress(), Progress::Idle);
    assert_eq!(applier.start(), apply("p/b.patch"));
    assert_eq!(applier.progress(), Progress::Applying { index: 0 });
    assert_eq!(applier.advance(&success()), apply("p/a.patch"));
    assert_eq!(applier.advance(&success()), apply("p/c.patch"));
    assert_eq!(applier.progress(), Progress::Applying { index: 2 });
    assert_eq!(applier.advance(&success()), Step::Done);
    assert_eq!(applier.progress(), Progress::Finished);
    assert_eq!(applier.advance(&success()), Step::Idle);
}

#[test]
fn either_order_applies_the_same_patches() {
    for paths in [["a.patch", "b.patch"], ["b.patch", "a.patch"]] {
        let mut applier = applier(&paths);
        assert_eq!(applier.start(), apply(paths[0]));
        assert_eq!(applier.advance(&success()), apply(paths[1]));
        assert_eq!(applier.advance(&success()), Step::Done);
    }
}

#[test]
fn no_patches_is_done_at_once() {
    let mut applier = applier(&[]);
    assert_eq!(applier.start(), Step::Done);
    assert_eq!(applier.progress(), Progress::Finished);
}

#[test]
fn failing_patch_ends_the_work_and_is_named() {
    let mut applier = applier(&["a.patch", "b.patch", "c.patch"]);
    applier.start();
    assert_eq!(applier.advance(&success()), apply("b.patch"));
    let last = applier.advance(&failure("error: patch failed: grammar.js:1"));
    let expected = SyncError::Patch {
        path: "b.patch".to_string(),
        cause: GitError::Failed("error: patch failed: grammar.js:1".to_string()),
    };
    assert_eq!(last, Step::Failed(expected.clone()));
    assert_eq!(
        expected.message(),
        "unable to apply patch from b.patch: error: patch failed: grammar.js:1"
    );
    assert_eq!(applier.progress(), Progress::Finished);
    assert_eq!(applier.advance(&success()), Step::Idle);
}

#[test]
fn idle_applier_ignores_reports() {
    let mut applier = applier(&["a.patch"]);
    assert_eq!(applier.advance(&success()), Step::Idle);
    assert_eq!(applier.progress(), Progress::Idle);
}
