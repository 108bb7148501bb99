use pop_ci::plan::{Runner, Step};
use pop_ci::publish::{
    archs_field, component_release, dists_plan, pool_plan, publish_plan, upload_marker, upload_step, upload_wanted,
};
use pop_ci::repo::{Arch, NamedPath, Package, Pocket, Suite};

fn strs(v: &[&str]) -> Vec<String> {
    v.iter().map(|s| s.to_string()).collect()
}

fn run_of(s: &Step) -> (String, Vec<String>, Option<String>, Option<String>) {
    match s {
        Step::Run(c) => (c.program.clone(), c.args.clone(), c.cwd.clone(), c.stdout_to.clone()),
        other => panic!("not a command: {:?}", other),
    }
}

#[test]
fn release_stanza() {
    let r = component_release(&Suite::new("focal").unwrap(), &Pocket::new("master"), "source");
    assert_eq!(
        r,
        "Archive: focal\nVersion: 20.04\nComponent: main\nOrigin: pop-os-staging-master\nLabel: Pop!_OS Staging master\nArchitecture: source\n"
    );
}

#[test]
fn architectures_field() {
    assert_eq!(archs_field(&vec![Arch("amd64"), Arch("i386")]), "amd64 i386");
    assert_eq!(archs_field(&Vec::new()), "");
}

#[test]
fn dists_signed_from_one_release() {
    let plan = dists_plan("/d", "/p", &Suite::new("focal").unwrap(), &Pocket::new("master"), &vec![Arch("amd64"), Arch("i386")], "ci@x");
    assert_eq!(plan.len(), 6 + 4 * 2 + 3);
    assert_eq!(plan[0], Step::MakeDir("/d".to_string()));
    let n = plan.len();
    let (prog, args, cwd, out) = run_of(&plan[n - 3]);
    assert_eq!(prog, "apt-ftparchive");
    assert_eq!(cwd, Some("/d".to_string()));
    assert_eq!(out, Some("/d/Release".to_string()));
    assert!(args.contains(&"APT::FTPArchive::Release::Architectures=amd64 i386".to_string()));
    assert_eq!(&args[args.len() - 2..], &strs(&["release", "."])[..]);
    let (prog, args, _, _) = run_of(&plan[n - 2]);
    assert_eq!(prog, "gpg");
    assert_eq!(args, strs(&["--clearsign", "--local-user", "ci@x", "--batch", "--yes", "--digest-algo", "sha512", "-o", "/d/InRelease", "/d/Release"]));
    let (_, args, _, _) = run_of(&plan[n - 1]);
    assert_eq!(args, strs(&["-abs", "--local-user", "ci@x", "--batch", "--yes", "--digest-algo", "sha512", "-o", "/d/Release.gpg", "/d/Release"]));
}

#[test]
fn dists_indexes_each_arch() {
    let plan = dists_plan("/d", "/p", &Suite::new("jammy").unwrap(), &Pocket::new("staging"), &vec![Arch("arm64")], "ci@x");
    let (prog, args, cwd, out) = run_of(&plan[3]);
    assert_eq!(prog, "apt-ftparchive");
    assert_eq!(args, strs(&["-qq", "sources", "pool/jammy"]));
    assert_eq!(cwd, Some("/p".to_string()));
    assert_eq!(out, Some("/d/main/source/Sources".to_string()));
    assert_eq!(plan[6], Step::MakeDir("/d/main/binary-arm64".to_string()));
    let (_, args, _, out) = run_of(&plan[7]);
    assert_eq!(args, strs(&["-qq", "--arch", "arm64", "packages", "pool/jammy"]));
    assert_eq!(out, Some("/d/main/binary-arm64/Packages".to_string()));
    match &plan[9] {
        Step::WriteFile(p, t) => {
            assert_eq!(p, "/d/main/binary-arm64/Release");
            assert!(t.ends_with("Architecture: arm64\n"));
        }
        other => panic!("unexpected {:?}", other),
    }
}

#[test]
fn pool_copies_package_files() {
    let f = |n: &str| NamedPath { name: n.to_string(), path: format!("/s/{}", n) };
    let p = Package {
        rebuilt: true,
        changes: vec![f("a_source.changes")],
        dscs: vec![f("a.dsc")],
        tars: vec![f("a.tar.xz")],
        archs: vec![Arch("amd64")],
        debs: vec![f("a_amd64.deb")],
    };
    let plan = pool_plan("/pool/c", &p);
    assert_eq!(
        plan,
        vec![
            Step::MakeDir("/pool/c".to_string()),
            Step::Copy("/s/a.dsc".to_string(), "/pool/c/a.dsc".to_string()),
            Step::Copy("/s/a.tar.xz".to_string(), "/pool/c/a.tar.xz".to_string()),
            Step::Copy("/s/a_amd64.deb".to_string(), "/pool/c/a_amd64.deb".to_string()),
        ]
    );
}

#[test]
fn uploads_only_for_master() {
    assert!(upload_wanted(&Pocket::new("master"), true, Some("ppa:x/y")));
    assert!(!upload_wanted(&Pocket::new("staging"), true, Some("ppa:x/y")));
    assert!(!upload_wanted(&Pocket::new("master"), false, Some("ppa:x/y")));
    assert!(!upload_wanted(&Pocket::new("master"), true, None));
}

#[test]
fn upload_markers() {
    assert_eq!(upload_marker("/s/a_1_source.changes"), Some("/s/a_1_source.ppa.upload".to_string()));
    assert_eq!(upload_marker("/s/a_1_amd64.changes"), None);
    let (prog, args, _, _) = run_of(&upload_step("ppa:x/y", "/s/a_source.changes"));
    assert_eq!(prog, "dput");
    assert_eq!(args, strs(&["ppa:x/y", "/s/a_source.changes"]));
}

#[test]
fn publish_packages_before_release() {
    let plan = publish_plan(false);
    assert_eq!(plan.len(), 2);
    let (_, first, _, _) = run_of(&plan[0]);
    assert_eq!(&first[..8], &strs(&["--exclude", "Packages*", "--exclude", "Sources*", "--exclude", "Release*", "--exclude", "InRelease"])[..]);
    assert!(!first.contains(&"--delete".to_string()));
    let (_, second, _, _) = run_of(&plan[1]);
    assert_eq!(&second[..2], &strs(&["--delete", "--delete-after"])[..]);
    assert_eq!(second.last().unwrap(), "ubuntu@apt-origin.pop-os.org:/var/www/html/staging/");
    let (_, dev, _, _) = run_of(&publish_plan(true)[1]);
    assert_eq!(dev.last().unwrap(), "ubuntu@apt-origin.pop-os.org:/var/www/html/staging-ubuntu/");
    let mut runner = Runner::new();
    assert_eq!(runner.current(2), Some(0));
    runner.record(false);
    assert_eq!(runner.current(2), None);
}

#[test]
fn runner_advances_on_success() {
    let mut runner = Runner::new();
    runner.record(true);
    assert_eq!(runner.current(2), Some(1));
    runner.record(true);
    assert_eq!(runner.current(2), None);
}
