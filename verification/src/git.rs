//! A handle on one working copy: the command line of each operation it offers,
//! and the reading of what a finished command left behind.
//!
//! Nothing here starts a process. An operation yields an [`Invocation`], the
//! caller runs it and reports an [`Outcome`], and the handle turns that outcome
//! into a typed result.

use crate::text::{
    chars_contain, chars_of, contains, lemma_token_len_is, lines, lines_of, text_between,
    token_len, whitespace,
};
use vstd::prelude::*;

verus! {

/// The text that `String::from_utf8_lossy` makes of a run of bytes.
pub uninterp spec fn utf8_lossy(bytes: Seq<u8>) -> Seq<char>;

/// `String::from_utf8_lossy` decodes bytes as UTF-8 and puts U+FFFD in place of
/// what is not valid UTF-8. How much each replacement covers is not written out
/// here; the result is only given the name `utf8_lossy`.
#[verifier::external_body]
pub(crate) fn lossy_text(bytes: &Vec<u8>) -> (text: String)
    ensures
        text@ == utf8_lossy(bytes@),
{
    String::from_utf8_lossy(bytes.as_slice()).into_owned()
}

/// One command to run on behalf of a working copy.
///
/// The runner starts `git --git-dir <root>/<git_dir> <subcommand> <args..>` with
/// `root` as the working directory, so that neither depends on the directory
/// the process happens to stand in. Where `create_root` is set it first creates
/// `root`, with its parents, if the directory is absent.
#[derive(Clone, Debug, PartialEq, Eq)]
pub struct Invocation {
    pub root: String,
    pub git_dir: String,
    pub subcommand: String,
    pub args: Vec<String>,
    pub create_root: bool,
}

pub struct InvocationView {
    pub root: Seq<char>,
    pub git_dir: Seq<char>,
    pub subcommand: Seq<char>,
    pub args: Seq<Seq<char>>,
    pub create_root: bool,
}

impl View for Invocation {
    type V = InvocationView;

    open spec fn view(&self) -> InvocationView {
        InvocationView {
            root: self.root@,
            git_dir: self.git_dir@,
            subcommand: self.subcommand@,
            args: self.args.deep_view(),
            create_root: self.create_root,
        }
    }
}

/// What running an invocation came to.
#[derive(Clone, Debug, PartialEq, Eq)]
pub enum Outcome {
    /// The process ran to its end.
    Exited { success: bool, stdout: Vec<u8>, stderr: Vec<u8> },
    /// The process could not be started.
    NotStarted { reason: String },
}

pub enum OutcomeView {
    Exited { success: bool, stdout: Seq<u8>, stderr: Seq<u8> },
    NotStarted { reason: Seq<char> },
}

impl View for Outcome {
    type V = OutcomeView;

    open spec fn view(&self) -> OutcomeView {
        match self {
            Outcome::Exited { success, stdout, stderr } => OutcomeView::Exited {
                success: *success,
                stdout: stdout@,
                stderr: stderr@,
            },
            Outcome::NotStarted { reason } => OutcomeView::NotStarted { reason: reason@ },
        }
    }
}

/// Why a command did not succeed.
#[derive(Clone, Debug, PartialEq, Eq)]
pub enum GitError {
    /// The process could not be started; the text says why.
    Launch(String),
    /// The process ended with a failure status; the text is what it wrote to
    /// standard error.
    Failed(String),
}

pub enum GitErrorView {
    Launch(Seq<char>),
    Failed(Seq<char>),
}

impl View for GitError {
    type V = GitErrorView;

    open spec fn view(&self) -> GitErrorView {
        match self {
            GitError::Launch(reason) => GitErrorView::Launch(reason@),
            GitError::Failed(stderr) => GitErrorView::Failed(stderr@),
        }
    }
}

impl GitError {
    /// The text that the error carries.
    pub fn message(&self) -> (text: &str)
        ensures
            text@ == error_text(self@),
    {
        match self {
            GitError::Launch(reason) => reason.as_str(),
            GitError::Failed(stderr) => stderr.as_str(),
        }
    }
}

/// The text that an error carries.
pub open spec fn error_text(error: GitErrorView) -> Seq<char> {
    match error {
        GitErrorView::Launch(reason) => reason,
        GitErrorView::Failed(stderr) => stderr,
    }
}

/// The verdict on an outcome. The exit status alone decides: a success yields
/// the text of standard output, a failure the text of standard error, whatever
/// either holds.
pub open spec fn verdict_of(outcome: OutcomeView) -> Result<Seq<char>, GitErrorView> {
    match outcome {
        OutcomeView::Exited { success, stdout, stderr } => if success {
            Ok(utf8_lossy(stdout))
        } else {
            Err(GitErrorView::Failed(utf8_lossy(stderr)))
        },
        OutcomeView::NotStarted { reason } => Err(GitErrorView::Launch(reason)),
    }
}

/// The name and the url that a line of a remote listing gives: what stands
/// before its first white-space character, and what stands between that
/// character and the next one. A line without white space gives nothing.
pub open spec fn remote_of(line: Seq<char>) -> Option<(Seq<char>, Seq<char>)> {
    let n = token_len(line) as int;
    if n >= line.len() {
        None
    } else {
        let rest = line.skip(n + 1);
        Some((line.take(n), rest.take(token_len(rest) as int)))
    }
}

/// The remotes that the lines of a listing give, in order; lines that give
/// none are passed over.
pub open spec fn remotes_in(listing: Seq<Seq<char>>) -> Seq<(Seq<char>, Seq<char>)>
    decreases listing.len(),
{
    if listing.len() == 0 {
        Seq::empty()
    } else {
        let before = remotes_in(listing.drop_last());
        match remote_of(listing.last()) {
            Some(remote) => before.push(remote),
            None => before,
        }
    }
}

/// The remotes that the text of a verbose remote listing reports.
pub open spec fn remotes_of(text: Seq<char>) -> Seq<(Seq<char>, Seq<char>)> {
    remotes_in(lines_of(text))
}

/// Whether some name in `branches` holds `name` as a contiguous run.
pub open spec fn some_contains(branches: Seq<Seq<char>>, name: Seq<char>) -> bool {
    exists|i: int| 0 <= i < branches.len() && contains(#[trigger] branches[i], name)
}

/// Whether a branch listing that came to `outcome` shows a branch whose name
/// holds `name`. A listing that did not succeed shows none.
pub open spec fn shows_branch(outcome: OutcomeView, name: Seq<char>) -> bool {
    match verdict_of(outcome) {
        Ok(text) => some_contains(lines_of(text), name),
        Err(_) => false,
    }
}

/// The command line of `subcommand` with `args`, bound to the working copy at
/// `root`.
pub open spec fn invocation(
    root: Seq<char>,
    subcommand: Seq<char>,
    args: Seq<Seq<char>>,
) -> InvocationView {
    InvocationView { root, git_dir: ".git"@, subcommand, args, create_root: false }
}

/// The arguments of a checkout: `-b` where the branch is to be created, the
/// branch, then the revision to start from where one is given.
pub open spec fn checkout_args(branch: Seq<char>, new: bool, revision: Option<Seq<char>>) -> Seq<
    Seq<char>,
> {
    let create = if new {
        seq!["-b"@]
    } else {
        Seq::empty()
    };
    let start = match revision {
        Some(r) => seq![r],
        None => Seq::empty(),
    };
    create + seq![branch] + start
}

/// The arguments of a fetch: the remote, and for a given revision a depth of
/// one and that revision.
pub open spec fn fetch_args(remote: Seq<char>, revision: Option<Seq<char>>) -> Seq<Seq<char>> {
    match revision {
        Some(r) => seq![remote, "--depth"@, "1"@, r],
        None => seq![remote],
    }
}

/// The arguments of a reset.
pub open spec fn reset_args(hard: bool) -> Seq<Seq<char>> {
    if hard {
        seq!["--hard"@]
    } else {
        Seq::empty()
    }
}

pub open spec fn view_of(text: Option<&str>) -> Option<Seq<char>> {
    match text {
        Some(t) => Some(t@),
        None => None,
    }
}

pub open spec fn text_result(r: Result<String, GitError>) -> Result<Seq<char>, GitErrorView> {
    match r {
        Ok(text) => Ok(text@),
        Err(e) => Err(e@),
    }
}

/// The verdict on an outcome: the text of standard output where the process
/// ended with success, else the error that carries the text of standard error,
/// or the reason for which the process did not start.
pub fn verdict(outcome: &Outcome) -> (r: Result<String, GitError>)
    ensures
        text_result(r) == verdict_of(outcome@),
{
    match outcome {
        Outcome::Exited { success, stdout, stderr } => {
            if *success {
                Ok(lossy_text(stdout))
            } else {
                Err(GitError::Failed(lossy_text(stderr)))
            }
        },
        Outcome::NotStarted { reason } => Err(GitError::Launch(reason.clone())),
    }
}

/// The name and url that one line of a remote listing gives.
pub fn parse_remote(line: &str) -> (r: Option<(String, String)>)
    ensures
        r.deep_view() == remote_of(line@),
{
    let chars = chars_of(line);
    let end = token_end_in(&chars, 0);
    assert(token_len(line@) == end) by {
        assert(chars@.skip(0) =~= line@);
    }
    if end >= chars.len() {
        None
    } else {
        let stop = token_end_in(&chars, end + 1);
        let name = text_between(&chars, 0, end);
        let url = text_between(&chars, end + 1, stop);
        proof {
            let rest = line@.skip(end + 1);
            assert(token_len(rest) == stop - (end + 1));
            assert(name@ =~= line@.take(end as int));
            assert(url@ =~= rest.take(stop - (end + 1)));
            assert(remote_of(line@) == Some((name@, url@)));
        }
        Some((name, url))
    }
}

/// The position of the first white-space character at or after `from`, or the
/// length of `chars` if none follows.
fn token_end_in(chars: &Vec<char>, from: usize) -> (end: usize)
    requires
        from <= chars.len(),
    ensures
        from <= end <= chars.len(),
        end - from == token_len(chars@.skip(from as int)),
{
    let mut end: usize = from;
    while end < chars.len() && !chars[end].is_whitespace()
        invariant
            from <= end <= chars.len(),
            forall|k: int| from <= k < end ==> !whitespace(chars@[k]),
        decreases chars.len() - end,
    {
        end = end + 1;
    }
    proof {
        lemma_token_len_is(chars@.skip(from as int), end - from);
    }
    end
}

/// The remotes that the text of a verbose remote listing reports, in order.
pub fn parse_remotes(text: &str) -> (remotes: Vec<(String, String)>)
    ensures
        remotes.deep_view() == remotes_of(text@),
{
    let listing = lines(text);
    let mut remotes: Vec<(String, String)> = Vec::new();
    let mut i: usize = 0;
    assert(listing.deep_view().take(0) =~= Seq::<Seq<char>>::empty());
    assert(remotes.deep_view() =~= remotes_in(listing.deep_view().take(0)));
    while i < listing.len()
        invariant
            i <= listing.len(),
            remotes.deep_view() == remotes_in(listing.deep_view().take(i as int)),
        decreases listing.len() - i,
    {
        let ghost before = remotes.deep_view();
        let ghost seen = listing.deep_view().take(i + 1);
        proof {
            assert(seen.drop_last() =~= listing.deep_view().take(i as int));
            assert(seen.last() == listing[i as int]@);
        }
        match parse_remote(listing[i].as_str()) {
            Some(remote) => {
                remotes.push(remote);
                assert(remotes.deep_view() =~= before.push(remote.deep_view()));
            },
            None => {},
        }
        i = i + 1;
    }
    assert(listing.deep_view().take(i as int) =~= listing.deep_view());
    remotes
}

/// Whether some name in `branches` holds `name` as a contiguous run of
/// characters.
pub fn any_contains(branches: &Vec<String>, name: &str) -> (found: bool)
    ensures
        found == some_contains(branches.deep_view(), name@),
{
    let needle = chars_of(name);
    let mut i: usize = 0;
    while i < branches.len()
        invariant
            i <= branches.len(),
            needle@ == name@,
            forall|k: int| 0 <= k < i ==> !contains(#[trigger] branches.deep_view()[k], name@),
        decreases branches.len() - i,
    {
        let hay = chars_of(branches[i].as_str());
        if chars_contain(&hay, &needle) {
            assert(contains(branches.deep_view()[i as int], name@));
            return true;
        }
        i = i + 1;
    }
    false
}

/// A working copy, known by the path of its root directory.
pub struct Git {
    path: String,
}

impl View for Git {
    type V = Seq<char>;

    closed spec fn view(&self) -> Seq<char> {
        self.path@
    }
}

impl Git {
    /// The handle on the working copy at `path`.
    pub fn new(path: String) -> (git: Git)
        ensures
            git@ == path@,
    {
        Git { path }
    }

    /// The root directory of the working copy.
    pub fn directory(&self) -> (path: &str)
        ensures
            path@ == self@,
    {
        self.path.as_str()
    }

    /// The command line of `command` with `args`, bound to this working copy.
    pub fn command(&self, command: &str, args: Vec<String>) -> (inv: Invocation)
        ensures
            inv@ == invocation(self@, command@, args.deep_view()),
    {
        Invocation {
            root: self.path.clone(),
            git_dir: ".git".to_owned(),
            subcommand: command.to_owned(),
            args,
            create_root: false,
        }
    }

    /// The command that lists the remotes with their urls.
    pub fn list_remotes(&self) -> (inv: Invocation)
        ensures
            inv@ == invocation(self@, "remote"@, seq!["-v"@]),
    {
        let mut args: Vec<String> = Vec::new();
        args.push("-v".to_owned());
        assert(args.deep_view() =~= seq!["-v"@]);
        self.command("remote", args)
    }

    /// The remotes of the working copy, as the remote listing that came to
    /// `outcome` reports them: one pair of name and url for each line that
    /// holds white space, in the order of the lines.
    pub fn remotes(&self, outcome: &Outcome) -> (r: Result<Vec<(String, String)>, GitError>)
        ensures
            match verdict_of(outcome@) {
                Ok(text) => r is Ok && r->Ok_0.deep_view() == remotes_of(text),
                Err(e) => r is Err && r->Err_0@ == e,
            },
    {
        match verdict(outcome) {
            Ok(text) => Ok(parse_remotes(text.as_str())),
            Err(e) => Err(e),
        }
    }

    /// The command that adds the remote `name` with `url`.
    pub fn add_remote(&self, name: &str, url: &str) -> (inv: Invocation)
        ensures
            inv@ == invocation(self@, "remote"@, seq!["add"@, name@, url@]),
    {
        let mut args: Vec<String> = Vec::new();
        args.push("add".to_owned());
        args.push(name.to_owned());
        args.push(url.to_owned());
        assert(args.deep_view() =~= seq!["add"@, name@, url@]);
        self.command("remote", args)
    }

    /// The command that lists the short names of the branches, one on a line.
    pub fn list_branches(&self) -> (inv: Invocation)
        ensures
            inv@ == invocation(self@, "branch"@, seq!["--format='%(refname:short)'"@]),
    {
        let mut args: Vec<String> = Vec::new();
        args.push("--format='%(refname:short)'".to_owned());
        assert(args.deep_view() =~= seq!["--format='%(refname:short)'"@]);
        self.command("branch", args)
    }

    /// The branches of the working copy, as the branch listing that came to
    /// `outcome` reports them: its lines, in order, each as it was written.
    pub fn branches(&self, outcome: &Outcome) -> (r: Result<Vec<String>, GitError>)
        ensures
            match verdict_of(outcome@) {
                Ok(text) => r is Ok && r->Ok_0.deep_view() == lines_of(text),
                Err(e) => r is Err && r->Err_0@ == e,
            },
    {
        match verdict(outcome) {
            Ok(text) => Ok(lines(text.as_str())),
            Err(e) => Err(e),
        }
    }

    /// The command that deletes `branch`, merged or not.
    pub fn delete_branch(&self, branch: &str) -> (inv: Invocation)
        ensures
            inv@ == invocation(self@, "branch"@, seq!["-D"@, branch@]),
    {
        let mut args: Vec<String> = Vec::new();
        args.push("-D".to_owned());
        args.push(branch.to_owned());
        assert(args.deep_view() =~= seq!["-D"@, branch@]);
        self.command("branch", args)
    }

    /// The command that checks out `branch`: created first where `new` is set,
    /// and starting from `revision` where one is given.
    pub fn checkout_branch(&self, branch: &str, new: bool, revision: Option<&str>) -> (inv:
        Invocation)
        ensures
            inv@ == invocation(self@, "checkout"@, checkout_args(branch@, new, view_of(revision))),
    {
        let mut args: Vec<String> = Vec::new();
        if new {
            args.push("-b".to_owned());
        }
        args.push(branch.to_owned());
        if let Some(revision) = revision {
            args.push(revision.to_owned());
        }
        assert(args.deep_view() =~= checkout_args(branch@, new, view_of(revision)));
        self.command("checkout", args)
    }

    /// Whether the branch listing that came to `outcome` shows a branch whose
    /// name holds `name`. The name need not be the whole of the branch's name,
    /// and a listing that did not succeed shows no branch.
    pub fn has_branch(&self, outcome: &Outcome, name: &str) -> (found: bool)
        ensures
            found == shows_branch(outcome@, name@),
    {
        match self.branches(outcome) {
            Ok(branches) => any_contains(&branches, name),
            Err(_) => false,
        }
    }

    /// The command that fetches from `remote`: the one given revision alone,
    /// without its ancestry, or else what the remote offers by default.
    pub fn fetch(&self, remote: &str, revision: Option<&str>) -> (inv: Invocation)
        ensures
            inv@ == invocation(self@, "fetch"@, fetch_args(remote@, view_of(revision))),
    {
        let mut args: Vec<String> = Vec::new();
        args.push(remote.to_owned());
        if let Some(revision) = revision {
            args.push("--depth".to_owned());
            args.push("1".to_owned());
            args.push(revision.to_owned());
        }
        assert(args.deep_view() =~= fetch_args(remote@, view_of(revision)));
        self.command("fetch", args)
    }

    /// The command that makes an empty repository at the root, whose directory
    /// the runner creates first if it is absent.
    pub fn init(&self) -> (inv: Invocation)
        ensures
            inv@ == (InvocationView {
                create_root: true,
                ..invocation(self@, "init"@, Seq::empty())
            }),
    {
        let args: Vec<String> = Vec::new();
        assert(args.deep_view() =~= Seq::<Seq<char>>::empty());
        let mut inv = self.command("init", args);
        inv.create_root = true;
        inv
    }

    /// The command that applies the patch file at `patch_path` to the working
    /// tree.
    pub fn apply(&self, patch_path: &str) -> (inv: Invocation)
        ensures
            inv@ == invocation(self@, "apply"@, seq![patch_path@]),
    {
        let mut args: Vec<String> = Vec::new();
        args.push(patch_path.to_owned());
        assert(args.deep_view() =~= seq![patch_path@]);
        self.command("apply", args)
    }

    /// The command that resets the index, and with `hard` the working tree too.
    pub fn reset(&self, hard: bool) -> (inv: Invocation)
        ensures
            inv@ == invocation(self@, "reset"@, reset_args(hard)),
    {
        let mut args: Vec<String> = Vec::new();
        if hard {
            args.push("--hard".to_owned());
        }
        assert(args.deep_view() =~= reset_args(hard));
        self.command("reset", args)
    }

    /// The command that removes untracked files and directories.
    pub fn clean(&self) -> (inv: Invocation)
        ensures
            inv@ == invocation(self@, "clean"@, seq!["-fd"@]),
    {
        let mut args: Vec<String> = Vec::new();
        args.push("-fd".to_owned());
        assert(args.deep_view() =~= seq!["-fd"@]);
        self.command("clean", args)
    }
}

} // verus!
