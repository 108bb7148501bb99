use pop_ci::git::{GitBranch, GitCommit, GitRemote, GitRepo, HeadsError};

fn strs(v: &[&str]) -> Vec<String> {
    v.iter().map(|s| s.to_string()).collect()
}

#[test]
fn heads_of_listing() {
    let repo = GitRepo::new("/r");
    let out = "c0ffee1\trefs/remotes/origin/master\nabc1234\trefs/remotes/origin/HEAD\n\
               def5678\trefs/remotes/origin/feature/x\n1234567\trefs/remotes/origin/master_focal_jammy\n";
    let heads = repo.heads(&GitRemote::origin(), out).unwrap();
    assert_eq!(
        heads,
        vec![
            (GitBranch::new("master"), GitCommit::new("c0ffee1")),
            (GitBranch::new("master_focal_jammy"), GitCommit::new("1234567")),
        ]
    );
}

#[test]
fn heads_of_empty_listing() {
    let repo = GitRepo::new("/r");
    assert_eq!(repo.heads(&GitRemote::origin(), ""), Ok(Vec::new()));
}

#[test]
fn heads_with_crlf_lines() {
    let repo = GitRepo::new("/r");
    let heads = repo.heads(&GitRemote::origin(), "c0ffee1\trefs/remotes/origin/master\r\n").unwrap();
    assert_eq!(heads, vec![(GitBranch::new("master"), GitCommit::new("c0ffee1"))]);
}

#[test]
fn heads_errors() {
    let repo = GitRepo::new("/r");
    assert_eq!(
        repo.heads(&GitRemote::new("a/b"), ""),
        Err(HeadsError::RemoteWithSlash)
    );
    assert_eq!(
        repo.heads(&GitRemote::origin(), "c0ffee1 refs/remotes/origin/master\n"),
        Err(HeadsError::MissingRef)
    );
    assert_eq!(
        repo.heads(&GitRemote::origin(), "c0ffee1\trefs/remotes/upstream/master\n"),
        Err(HeadsError::RefOutsidePrefix)
    );
}

#[test]
fn heads_command_arguments() {
    let repo = GitRepo::new("/r");
    assert_eq!(
        repo.heads_command(&GitRemote::origin()).unwrap(),
        strs(&["-C", "/r", "for-each-ref", "--format=%(objectname:short)\t%(refname)", "--", "refs/remotes/origin/"])
    );
    assert_eq!(repo.heads_command(&GitRemote::new("x/y")), Err(HeadsError::RemoteWithSlash));
}

#[test]
fn git_call_arguments() {
    let repo = GitRepo::new("/r");
    let c = GitCommit::new("c0ffee1");
    assert_eq!(repo.path(), "/r");
    assert_eq!(repo.command(), strs(&["-C", "/r"]));
    assert_eq!(
        repo.archive(&c, "/tmp/a.tar"),
        strs(&["-C", "/r", "archive", "-o", "/tmp/a.tar", "--", "c0ffee1"])
    );
    assert_eq!(
        repo.file_exists(&c, "debian/changelog"),
        strs(&["-C", "/r", "cat-file", "-e", "c0ffee1:debian/changelog"])
    );
    assert_eq!(
        repo.fetch(&GitRemote::origin()),
        strs(&["-C", "/r", "fetch", "--prune", "--quiet", "--", "origin"])
    );
    assert_eq!(
        repo.commit_field(&c, "%ct"),
        strs(&["-C", "/r", "log", "-1", "--pretty=format:%ct", "c0ffee1"])
    );
}

#[test]
fn identifiers() {
    assert_eq!(GitBranch::new("master").id(), "master");
    assert_eq!(GitCommit::new("c0ffee1").id(), "c0ffee1");
    assert_eq!(GitRemote::origin().id(), "origin");
}
