use pop_ci::git::{GitBranch, GitCommit};
use pop_ci::resolve::{repo_builds, resolve_pockets, PocketEntry};
use pop_ci::repo::{Suite, SuiteDistro, SuiteWildcard};

fn head(b: &str, c: &str) -> (GitBranch, GitCommit) {
    (GitBranch::new(b), GitCommit::new(c))
}

fn keys(es: &[PocketEntry]) -> Vec<(String, String, String, String)> {
    let mut v: Vec<_> = es
        .iter()
        .map(|e| (e.pocket.id().to_string(), e.suite.id().to_string(), e.commit.id().to_string(), e.branch.id().to_string()))
        .collect();
    v.sort();
    v
}

#[test]
fn bare_master_on_single_suite() {
    let suites = vec![Suite("focal", "20.04", SuiteWildcard::All, SuiteDistro::All)];
    let es = resolve_pockets(&vec![head("master", "c0ffee1")], "alpha", false, &suites);
    assert_eq!(keys(&es), vec![("master".into(), "focal".into(), "c0ffee1".into(), "master".into())]);
}

#[test]
fn explicit_patterns_select_named_suites() {
    let es = resolve_pockets(&vec![head("master_focal_jammy", "1111111")], "alpha", false, &Suite::all());
    assert_eq!(
        keys(&es),
        vec![
            ("master".into(), "focal".into(), "1111111".into(), "master_focal_jammy".into()),
            ("master".into(), "jammy".into(), "1111111".into(), "master_focal_jammy".into()),
        ]
    );
}

#[test]
fn bare_branch_does_not_overwrite_patterns() {
    let heads = vec![head("master_focal_jammy", "1111111"), head("master", "2222222")];
    let es = resolve_pockets(&heads, "linux", false, &Suite::all());
    assert_eq!(
        keys(&es),
        vec![
            ("master".into(), "focal".into(), "1111111".into(), "master_focal_jammy".into()),
            ("master".into(), "jammy".into(), "1111111".into(), "master_focal_jammy".into()),
            ("master".into(), "noble".into(), "2222222".into(), "master".into()),
        ]
    );
}

#[test]
fn later_pattern_branch_overwrites() {
    let heads = vec![head("master", "2222222"), head("master_jammy", "3333333")];
    let es = resolve_pockets(&heads, "alpha", false, &Suite::all());
    assert_eq!(
        keys(&es),
        vec![
            ("master".into(), "jammy".into(), "3333333".into(), "master_jammy".into()),
            ("master".into(), "noble".into(), "2222222".into(), "master".into()),
        ]
    );
}

#[test]
fn distro_class_filters_suites() {
    let pop = resolve_pockets(&vec![head("staging_lunar", "4444444")], "alpha", false, &Suite::all());
    assert!(pop.is_empty());
    let dev = resolve_pockets(&vec![head("staging_lunar", "4444444")], "alpha", true, &Suite::all());
    assert_eq!(keys(&dev), vec![("staging".into(), "lunar".into(), "4444444".into(), "staging_lunar".into())]);
}

#[test]
fn unknown_pattern_builds_nothing() {
    let es = resolve_pockets(&vec![head("master_sid", "5555555")], "alpha", false, &Suite::all());
    assert!(es.is_empty());
}

#[test]
fn builds_group_by_commit() {
    let heads = vec![head("master_focal_jammy", "1111111"), head("staging_jammy", "1111111"), head("master", "2222222")];
    let es = resolve_pockets(&heads, "linux", false, &Suite::all());
    let mut builds = repo_builds(&es);
    builds.sort_by(|a, b| a.commit.id().cmp(b.commit.id()));
    assert_eq!(builds.len(), 2);
    let b = &builds[0];
    assert_eq!(b.commit.id(), "1111111");
    let mut branches: Vec<_> = b.branches.iter().map(|x| x.id().to_string()).collect();
    branches.sort();
    assert_eq!(branches, vec!["master_focal_jammy".to_string(), "staging_jammy".to_string()]);
    let jammy = b.suites.iter().find(|s| s.suite.id() == "jammy").unwrap();
    let mut pockets: Vec<_> = jammy.pockets.iter().map(|p| p.id().to_string()).collect();
    pockets.sort();
    assert_eq!(pockets, vec!["master".to_string(), "staging".to_string()]);
    assert_eq!(b.suites.len(), 2);
    assert_eq!(builds[1].commit.id(), "2222222");
    assert_eq!(builds[1].suites.len(), 1);
    assert_eq!(builds[1].suites[0].suite.id(), "noble");
}

#[test]
fn no_requests_no_builds() {
    assert!(repo_builds(&Vec::new()).is_empty());
}
