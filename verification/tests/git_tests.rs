use repo_sync::git::{
    any_contains, parse_remote, parse_remotes, verdict, Git, GitError, Invocation, Outcome,
};

fn handle() -> Git {
    Git::new("out/tree".to_string())
}

fn texts(items: &[&str]) -> Vec<String> {
    items.iter().map(|item| item.to_string()).collect()
}

fn command(subcommand: &str, args: &[&str]) -> Invocation {
    Invocation {
        root: "out/tree".to_string(),
        git_dir: ".git".to_string(),
        subcommand: subcommand.to_string(),
        args: texts(args),
        create_root: false,
    }
}

fn success(stdout: &str) -> Outcome {
    Outcome::Exited {
        success: true,
        stdout: stdout.as_bytes().to_vec(),
        stderr: Vec::new(),
    }
}

fn failure(stderr: &str) -> Outcome {
    Outcome::Exited {
        success: false,
        stdout: Vec::new(),
        stderr: stderr.as_bytes().to_vec(),
    }
}

fn pair(name: &str, url: &str) -> (String, String) {
    (name.to_string(), url.to_string())
}

fn split_as_std(line: &str) -> Option<(String, String)> {
    let mut parts = line.split(|c: char| c.is_whitespace());
    Some((parts.next()?.to_string(), parts.next()?.to_string()))
}

#[test]
fn directory_is_the_path_given() {
    assert_eq!(handle().directory(), "out/tree");
    assert_eq!(Git::new(String::new()).directory(), "");
}

#[test]
fn command_binds_to_the_root() {
    let inv = handle().command("status", texts(&["--short", "x y"]));
    assert_eq!(inv, command("status", &["--short", "x y"]));
    assert_eq!(inv.git_dir, ".git");
    assert_eq!(inv.root, "out/tree");
}

#[test]
fn list_remotes_is_verbose() {
    assert_eq!(handle().list_remotes(), command("remote", &["-v"]));
}

#[test]
fn add_remote_names_remote_and_url() {
    assert_eq!(
        handle().add_remote("origin", "https://example.com/g.git"),
        command("remote", &["add", "origin", "https://example.com/g.git"])
    );
}

#[test]
fn list_branches_asks_for_short_names() {
    assert_eq!(
        handle().list_branches(),
        command("branch", &["--format='%(refname:short)'"])
    );
}

#[test]
fn delete_branch_forces() {
    assert_eq!(handle().delete_branch("work"), command("branch", &["-D", "work"]));
}

#[test]
fn checkout_branch_orders_its_arguments() {
    let git = handle();
    assert_eq!(git.checkout_branch("work", false, None), command("checkout", &["work"]));
    assert_eq!(
        git.checkout_branch("work", true, None),
        command("checkout", &["-b", "work"])
    );
    assert_eq!(
        git.checkout_branch("work", false, Some("abc123")),
        command("checkout", &["work", "abc123"])
    );
    assert_eq!(
        git.checkout_branch("work", true, Some("abc123")),
        command("checkout", &["-b", "work", "abc123"])
    );
}

#[test]
fn fetch_of_a_revision_is_shallow() {
    assert_eq!(
        handle().fetch("origin", Some("abc123")),
        command("fetch", &["origin", "--depth", "1", "abc123"])
    );
}

#[test]
fn fetch_without_revision_names_the_remote_only() {
    assert_eq!(handle().fetch("origin", None), command("fetch", &["origin"]));
}

#[test]
fn init_creates_the_root() {
    let inv = handle().init();
    assert!(inv.create_root);
    assert_eq!(
        inv,
        Invocation {
            create_root: true,
            ..command("init", &[])
        }
    );
}

#[test]
fn apply_names_the_patch() {
    assert_eq!(
        handle().apply("patches/a.patch"),
        command("apply", &["patches/a.patch"])
    );
}

#[test]
fn reset_is_hard_on_request() {
    assert_eq!(handle().reset(true), command("reset", &["--hard"]));
    assert_eq!(handle().reset(false), command("reset", &[]));
}

#[test]
fn clean_removes_files_and_directories() {
    assert_eq!(handle().clean(), command("clean", &["-fd"]));
}

#[test]
fn only_init_creates_the_root() {
    let git = handle();
    assert!(!git.list_remotes().create_root);
    assert!(!git.fetch("origin", Some("r")).create_root);
    assert!(!git.clean().create_root);
    assert!(!git.checkout_branch("b", true, None).create_root);
}

#[test]
fn verdict_goes_by_the_status_alone() {
    let ok = Outcome::Exited {
        success: true,
        stdout: b"out".to_vec(),
        stderr: b"fatal: looks bad".to_vec(),
    };
    assert_eq!(verdict(&ok), Ok("out".to_string()));
    let bad = Outcome::Exited {
        success: false,
        stdout: b"all fine".to_vec(),
        stderr: b"err".to_vec(),
    };
    assert_eq!(verdict(&bad), Err(GitError::Failed("err".to_string())));
}

#[test]
fn verdict_carries_standard_error_verbatim() {
    let text = "fatal: not a git repository\n  (or any parent)\n";
    assert_eq!(
        verdict(&failure(text)),
        Err(GitError::Failed(text.to_string()))
    );
}

#[test]
fn verdict_of_a_process_that_did_not_start() {
    let outcome = Outcome::NotStarted {
        reason: "No such file or directory (os error 2)".to_string(),
    };
    assert_eq!(
        verdict(&outcome),
        Err(GitError::Launch(
            "No such file or directory (os error 2)".to_string()
        ))
    );
}

#[test]
fn verdict_replaces_what_is_not_utf8() {
    let outcome = Outcome::Exited {
        success: true,
        stdout: vec![b'a', 0xff, b'b'],
        stderr: Vec::new(),
    };
    assert_eq!(verdict(&outcome), Ok("a\u{fffd}b".to_string()));
    let outcome = Outcome::Exited {
        success: false,
        stdout: Vec::new(),
        stderr: vec![0xc3, 0xbc, 0xc3],
    };
    assert_eq!(
        verdict(&outcome),
        Err(GitError::Failed("\u{fc}\u{fffd}".to_string()))
    );
}

#[test]
fn error_message_is_the_text_it_carries() {
    assert_eq!(GitError::Failed("stderr text".to_string()).message(), "stderr text");
    assert_eq!(GitError::Launch("no git".to_string()).message(), "no git");
}

#[test]
fn remotes_reports_each_direction() {
    let listing = "origin\thttps://example.com/g.git (fetch)\norigin\thttps://example.com/g.git (push)\n";
    assert_eq!(
        handle().remotes(&success(listing)),
        Ok(vec![
            pair("origin", "https://example.com/g.git"),
            pair("origin", "https://example.com/g.git"),
        ])
    );
}

#[test]
fn remotes_of_an_empty_listing() {
    assert_eq!(handle().remotes(&success("")), Ok(Vec::new()));
}

#[test]
fn remotes_drops_lines_with_fewer_than_two_tokens() {
    let listing = "origin\n\nupstream https://u\nlonely\n";
    assert_eq!(
        handle().remotes(&success(listing)),
        Ok(vec![pair("upstream", "https://u")])
    );
}

#[test]
fn remotes_fails_with_the_command() {
    assert_eq!(
        handle().remotes(&failure("fatal: not a git repository")),
        Err(GitError::Failed("fatal: not a git repository".to_string()))
    );
    assert_eq!(
        handle().remotes(&Outcome::NotStarted { reason: "gone".to_string() }),
        Err(GitError::Launch("gone".to_string()))
    );
}

#[test]
fn parse_remote_splits_at_each_white_space_character() {
    assert_eq!(parse_remote("a b c"), Some(pair("a", "b")));
    assert_eq!(parse_remote("a  b"), Some(pair("a", "")));
    assert_eq!(parse_remote(" a b"), Some(pair("", "a")));
    assert_eq!(parse_remote("a "), Some(pair("a", "")));
    assert_eq!(parse_remote(" "), Some(pair("", "")));
    assert_eq!(parse_remote("a"), None);
    assert_eq!(parse_remote(""), None);
}

#[test]
fn parse_remote_knows_every_white_space_character() {
    assert_eq!(parse_remote("a\u{3000}b\u{a0}c"), Some(pair("a", "b")));
    assert_eq!(parse_remote("a\u{2028}b"), Some(pair("a", "b")));
    assert_eq!(parse_remote("a\u{200b}b"), None);
    assert_eq!(parse_remote("a_b"), None);
}

#[test]
fn parse_remote_agrees_with_std_split_on_samples() {
    let samples = [
        "",
        " ",
        "a",
        "a b",
        "a\tb (fetch)",
        "\ta",
        "a\t\tb",
        "gr\u{fc}n\u{2003}url rest",
        "a\rb",
        "a\u{85}b",
        "one two three four",
    ];
    for sample in samples {
        assert_eq!(parse_remote(sample), split_as_std(sample), "sample {:?}", sample);
    }
}

#[test]
fn parse_remotes_keeps_the_order_of_the_lines() {
    assert_eq!(
        parse_remotes("b 2\r\na 1\nnone\nc 3"),
        vec![pair("b", "2"), pair("a", "1"), pair("c", "3")]
    );
}

#[test]
fn branches_are_the_lines_as_written() {
    let listing = "'main'\n'zed-oat-v1-extension-temp'\n";
    assert_eq!(
        handle().branches(&success(listing)),
        Ok(texts(&["'main'", "'zed-oat-v1-extension-temp'"]))
    );
}

#[test]
fn branches_fails_with_the_command() {
    assert_eq!(
        handle().branches(&failure("boom")),
        Err(GitError::Failed("boom".to_string()))
    );
}

#[test]
fn has_branch_tolerates_what_surrounds_the_name() {
    let listing = success("'main'\n'zed-oat-v1-extension-temp'\n");
    assert!(handle().has_branch(&listing, "zed-oat-v1-extension-temp"));
    assert!(handle().has_branch(&listing, "main"));
    assert!(!handle().has_branch(&listing, "zed-oat-v1-extension-patches"));
}

#[test]
fn has_branch_matches_a_longer_name_that_holds_the_query() {
    // Matching is by containment, not by equality: a branch whose name only
    // holds the query counts as present. Equality would give false here.
    let listing = success("zed-oat-v1-extension-patches-old\n");
    assert!(handle().has_branch(&listing, "zed-oat-v1-extension-patches"));
    let listing = success("prefix-foo-suffix\n");
    assert!(handle().has_branch(&listing, "foo"));
}

#[test]
fn has_branch_does_not_match_across_lines() {
    let listing = success("ab\ncd\n");
    assert!(!handle().has_branch(&listing, "bc"));
    assert!(!handle().has_branch(&listing, "b\nc"));
}

#[test]
fn has_branch_is_false_when_the_listing_failed() {
    assert!(!handle().has_branch(&failure("main"), "main"));
    assert!(!handle().has_branch(&Outcome::NotStarted { reason: "main".to_string() }, "main"));
    let ignored_stdout = Outcome::Exited {
        success: false,
        stdout: b"main\n".to_vec(),
        stderr: Vec::new(),
    };
    assert!(!handle().has_branch(&ignored_stdout, "main"));
}

#[test]
fn has_branch_with_no_branches() {
    assert!(!handle().has_branch(&success(""), "main"));
    assert!(!handle().has_branch(&success(""), ""));
    assert!(handle().has_branch(&success("\n"), ""));
}

#[test]
fn any_contains_looks_at_every_name() {
    let names = texts(&["alpha", "beta", "gamma"]);
    assert!(any_contains(&names, "mm"));
    assert!(any_contains(&names, "alpha"));
    assert!(!any_contains(&names, "delta"));
    assert!(!any_contains(&Vec::new(), "a"));
}
