use pop_ci::git::GitCommit;
use pop_ci::repo::{Arch, NamedPath, Package, Pocket, Suite};
use pop_ci::stage::{
    already_failed, binary_retry, build_logs, changelog_path, deb_files, derived_version, dsc_archs,
    log_name, rewrite_changelog, source_retry, source_retry_keys,
};

fn np(name: &str) -> NamedPath {
    NamedPath { name: name.to_string(), path: format!("/d/{}", name) }
}

fn strs(v: &[&str]) -> Vec<String> {
    v.iter().map(|s| s.to_string()).collect()
}

#[test]
fn retry_keys_of_source() {
    let focal = Suite::new("focal").unwrap();
    let keys = source_retry_keys("alpha", &GitCommit::new("c0ffee1"), &focal, &vec![Pocket::new("master"), Pocket::new("staging")]);
    assert_eq!(keys, strs(&["alpha", "git:c0ffee1", "dist:focal", "pocket:master", "pocket:staging"]));
}

#[test]
fn retry_matches_any_key() {
    let focal = Suite::new("focal").unwrap();
    let c = GitCommit::new("c0ffee1");
    let pockets = vec![Pocket::new("master")];
    assert!(source_retry(&strs(&["alpha"]), "alpha", &c, &focal, &pockets));
    assert!(source_retry(&strs(&["x", "pocket:master"]), "alpha", &c, &focal, &pockets));
    assert!(!source_retry(&strs(&["beta", "dist:jammy"]), "alpha", &c, &focal, &pockets));
    assert!(!source_retry(&Vec::new(), "alpha", &c, &focal, &pockets));
}

#[test]
fn arch_key_retries_binary_only() {
    let focal = Suite::new("focal").unwrap();
    let retry = strs(&["arch:amd64"]);
    let src = source_retry(&retry, "alpha", &GitCommit::new("c0ffee1"), &focal, &vec![Pocket::new("master")]);
    assert!(!src);
    assert!(binary_retry(&retry, src, &Arch("amd64")));
    assert!(!binary_retry(&retry, src, &Arch("i386")));
    assert!(binary_retry(&Vec::new(), true, &Arch("i386")));
}

#[test]
fn failed_step_skipped_unless_retried() {
    assert!(already_failed(true, false));
    assert!(!already_failed(true, true));
    assert!(!already_failed(false, false));
}

#[test]
fn log_names() {
    let focal = Suite::new("focal").unwrap();
    assert_eq!(log_name("alpha", &GitCommit::new("c0ffee1"), &focal, "source"), "alpha_c0ffee1_focal_source.log");
    assert_eq!(log_name("alpha", &GitCommit::new("c0ffee1"), &focal, "amd64"), "alpha_c0ffee1_focal_amd64.log");
}

#[test]
fn derived_versions() {
    let focal = Suite::new("focal").unwrap();
    let c = GitCommit::new("c0ffee1234abcd");
    assert_eq!(derived_version("1.2.3", "1600000000", &focal, &c, false), "1.2.3~1600000000~20.04~c0ffee1");
    assert_eq!(derived_version("1.2.3", "1600000000", &focal, &c, true), "1.2.3~1600000000~20.04~c0ffee1~dev");
}

#[test]
fn changelog_locations() {
    assert_eq!(changelog_path("linux"), "debian.master/changelog");
    assert_eq!(changelog_path("alpha"), "debian/changelog");
}

#[test]
fn changelog_rewrite() {
    let text = "alpha (1.0) focal; urgency=medium\n\n  * Change\n\n -- Old Name <old@x>  Mon, 1 Jan 2020 00:00:00 +0000\n\nalpha (0.9) focal; urgency=medium\n\n -- Older <o@x>  Sun, 1 Jan 2019 00:00:00 +0000\n";
    let out = rewrite_changelog(text, "alpha", "1.0~1~20.04~c0ffee1", &Suite::new("focal").unwrap(), "Builder", "b@x", "Tue, 2 Jan 2020 00:00:00 +0000");
    let expected = "alpha (1.0~1~20.04~c0ffee1) focal; urgency=medium\n\n  * Auto Build\n\n  * Change\n\n -- Builder <b@x>  Tue, 2 Jan 2020 00:00:00 +0000\n\nalpha (0.9) focal; urgency=medium\n\n -- Older <o@x>  Sun, 1 Jan 2019 00:00:00 +0000\n";
    assert_eq!(out, expected);
}

#[test]
fn changelog_rewrite_empty() {
    assert_eq!(rewrite_changelog("", "alpha", "1", &Suite::new("focal").unwrap(), "B", "e", "d"), "");
}

#[test]
fn dsc_architectures() {
    let archs = vec![Arch("amd64"), Arch("i386"), Arch("arm64")];
    let dsc = "Format: 3.0 (native)\nSource: alpha\nArchitecture: any all\nVersion: 1\n";
    assert_eq!(dsc_archs(dsc, &archs, true), archs);
    assert_eq!(dsc_archs("Architecture: all\n", &archs, true), vec![Arch("amd64")]);
    assert_eq!(dsc_archs("Architecture: linux-any\n", &archs, true), vec![Arch("amd64"), Arch("arm64")]);
    assert_eq!(dsc_archs("Architecture: linux-i386 amd64\n", &archs, true), vec![Arch("amd64"), Arch("i386")]);
    assert_eq!(dsc_archs("Source: alpha\n", &archs, true), Vec::<Arch>::new());
}

#[test]
fn arm_skipped_without_builder() {
    let archs = vec![Arch("amd64"), Arch("i386"), Arch("arm64")];
    assert_eq!(dsc_archs("Architecture: any\n", &archs, false), vec![Arch("amd64"), Arch("i386")]);
}

#[test]
fn source_files_sorted_into_package() {
    let files = vec![np("alpha_1_source.changes"), np("alpha_1.dsc"), np("alpha_1.tar.xz"), np("alpha_1_source.build"), np("archive")];
    let p = Package::from_source(true, &files);
    assert!(p.rebuilt);
    assert_eq!(p.changes, vec![np("alpha_1_source.changes")]);
    assert_eq!(p.dscs, vec![np("alpha_1.dsc")]);
    assert_eq!(p.tars, vec![np("alpha_1.tar.xz")]);
    assert!(p.archs.is_empty() && p.debs.is_empty());
    assert!(p.source_complete());
    let partial = Package::from_source(false, &vec![np("alpha_1.dsc")]);
    assert!(!partial.source_complete());
}

#[test]
fn binary_results_join_package() {
    let mut p = Package::from_source(false, &vec![np("a.dsc"), np("a_source.changes")]);
    let debs = deb_files(&vec![np("a_1_amd64.deb"), np("a_1_amd64.build"), np("b_1_all.deb")]);
    assert_eq!(debs, vec![np("a_1_amd64.deb"), np("b_1_all.deb")]);
    assert!(p.add_binary(false, &debs));
    assert!(!p.rebuilt);
    assert!(p.add_binary(true, &vec![np("a_1_i386.deb")]));
    assert!(p.rebuilt);
    assert_eq!(p.debs.len(), 3);
    assert!(p.add_binary(false, &Vec::new()));
    assert!(p.rebuilt);
}

#[test]
fn duplicate_binary_is_refused() {
    let mut p = Package::from_source(false, &vec![np("a.dsc")]);
    assert!(p.add_binary(false, &vec![np("b_all.deb")]));
    let before = p.clone();
    assert!(!p.add_binary(true, &vec![np("c.deb"), np("b_all.deb")]));
    assert_eq!(p, before);
    assert!(!p.add_binary(true, &vec![np("d.deb"), np("d.deb")]));
    assert_eq!(p, before);
}

#[test]
fn build_logs_by_step() {
    let files = vec![np("alpha_1_source.build"), np("alpha_1_amd64.build"), np("alpha_1.dsc")];
    assert_eq!(build_logs(&files, "source"), vec![np("alpha_1_source.build")]);
    assert_eq!(build_logs(&files, "amd64"), vec![np("alpha_1_amd64.build")]);
    assert!(build_logs(&files, "i386").is_empty());
}

#[test]
fn source_build_start() {
    let plan = pop_ci::stage::extract_steps("/s/partial.source", "/c/archive.tar.gz");
    assert_eq!(plan.len(), 3);
    assert_eq!(plan[0], pop_ci::plan::Step::MakeDir("/s/partial.source".to_string()));
    assert_eq!(plan[1], pop_ci::plan::Step::MakeDir("/s/partial.source/archive".to_string()));
    match &plan[2] {
        pop_ci::plan::Step::Run(c) => {
            assert_eq!(c.program, "tar");
            assert_eq!(c.args, strs(&["--extract", "-f", "/c/archive.tar.gz", "-C", "/s/partial.source/archive"]));
        }
        other => panic!("unexpected {:?}", other),
    }
}

#[test]
fn source_build_finish() {
    let c = GitCommit::new("c0ffee1");
    let plain = pop_ci::stage::finish_steps("alpha", "/a", false, "1600000000", &c);
    assert_eq!(plain.len(), 1);
    match &plain[0] {
        pop_ci::plan::Step::Run(cmd) => {
            assert_eq!(cmd.program, "debuild");
            assert_eq!(cmd.args[3], "SOURCE_DATE_EPOCH=1600000000");
            assert_eq!(cmd.args[5], "SOURCE_GIT_HASH=c0ffee1");
            assert_eq!(cmd.cwd, Some("/a".to_string()));
        }
        other => panic!("unexpected {:?}", other),
    }
    let linux = pop_ci::stage::finish_steps("linux", "/a", true, "1", &c);
    let programs: Vec<String> = linux
        .iter()
        .map(|s| match s {
            pop_ci::plan::Step::Run(cmd) => cmd.program.clone(),
            _ => String::new(),
        })
        .collect();
    assert_eq!(programs, strs(&["env", "fakeroot", "debuild"]));
}
