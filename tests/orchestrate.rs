use pop_ci::git::{GitBranch, GitCommit};
use pop_ci::orchestrate::{any_rebuilt, commit_retain, pocket_retain, root_retain, source_force, suite_retain, LogBook, SuiteSignal};
use pop_ci::repo::{Pocket, RepoInfo, Suite};
use pop_ci::resolve::{RepoBuild, SuitePockets};

fn strs(v: &[&str]) -> Vec<String> {
    v.iter().map(|s| s.to_string()).collect()
}

#[test]
fn retention_lists() {
    assert_eq!(root_retain(), strs(&["git", "apt", "log"]));
    assert_eq!(pocket_retain(), strs(&["dists", "pool"]));
    let b = RepoBuild {
        commit: GitCommit::new("c0ffee1"),
        branches: vec![GitBranch::new("master")],
        suites: vec![SuitePockets { suite: Suite::new("focal").unwrap(), pockets: vec![Pocket::new("master")] }],
    };
    assert_eq!(commit_retain(&b), strs(&["archive.tar.gz", "focal"]));
    let info = RepoInfo::new(&Suite::new("jammy").unwrap(), false);
    assert_eq!(suite_retain(&info), strs(&["source", "amd64", "i386", "arm64"]));
}

#[test]
fn rebuild_signal_is_an_or() {
    assert!(!any_rebuilt(&Vec::new()));
    assert!(!any_rebuilt(&vec![false, false]));
    assert!(any_rebuilt(&vec![false, true, false]));
}

#[test]
fn log_book_refuses_duplicates() {
    let mut book = LogBook::new();
    assert!(book.insert("a.log", "/p/a.build", true));
    assert!(book.insert("b.log", "/p/b.build", false));
    assert!(!book.insert("a.log", "/q/a.build", false));
    assert_eq!(book.entries.len(), 2);
    assert_eq!(book.entries[0].path, "/p/a.build");
    assert!(book.entries[0].rebuilt);
}

#[test]
fn suite_signal_flows_upward() {
    assert!(source_force(true));
    assert!(!source_force(false));
    let mut s = SuiteSignal::new(false);
    assert!(!s.binary_force(false));
    assert!(s.binary_force(true));
    s.record(true, false);
    assert!(!s.rebuilt && s.installable());
    s.record(true, true);
    assert!(s.rebuilt && s.installable());
    s.record(false, false);
    assert!(!s.installable());
    let forced = SuiteSignal::new(true);
    assert!(forced.binary_force(false));
    assert!(forced.rebuilt);
}
