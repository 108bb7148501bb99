use pop_ci::repo::{Arch, RepoInfo, Suite};
use pop_ci::script::{binary_build, chroot_script, remote_outcome, script_command, update_script, BinaryContext, BinaryJob};

fn ctx(arch: &'static str, arm64: Option<&str>) -> BinaryContext {
    let suite = Suite::new("jammy").unwrap();
    BinaryContext {
        arch: Arch(arch),
        arm64: arm64.map(|s| s.to_string()),
        dsc_path: "/s/a_1.dsc".to_string(),
        repo_info: RepoInfo::new(&suite, false),
        source: "/s".to_string(),
        suite,
    }
}

#[test]
fn local_build_script() {
    match binary_build(&ctx("amd64", None), "/b/partial.amd64") {
        BinaryJob::Local(c) => {
            assert_eq!(c.program, "sh");
            assert_eq!(c.args[0], "-c");
            let s = &c.args[1];
            assert!(s.starts_with("#!/usr/bin/env bash\n\nset -e\n\nmkdir -p '/b/partial.amd64'\ncd '/b/partial.amd64'\nsbuild \\\n"));
            assert!(s.contains("    '--arch-all' \\\n    '--arch=amd64' \\\n    '--dist=jammy' \\\n"));
            assert!(s.contains("'--extra-repository=deb http://apt.pop-os.org/ubuntu jammy-updates main restricted universe multiverse'"));
            assert!(s.contains("'--extra-repository=deb http://apt.pop-os.org/release jammy main'"));
            assert!(s.contains("'--extra-repository-key=scripts/.iso.asc'"));
            assert!(s.ends_with("    '--no-run-piuparts' \\\n    '/s/a_1.dsc'\n"));
        }
        other => panic!("unexpected {:?}", other),
    }
    match binary_build(&ctx("i386", None), "/b/x") {
        BinaryJob::Local(c) => assert!(c.args[1].contains("'--no-arch-all'")),
        other => panic!("unexpected {:?}", other),
    }
}

#[test]
fn remote_build_on_arm_builder() {
    match binary_build(&ctx("arm64", Some("builder")), "/b/partial.arm64") {
        BinaryJob::Remote { upload, build, fetch } => {
            assert_eq!(upload.program, "rsync");
            assert_eq!(&upload.args[6..], &["/s/".to_string(), "builder:/s/".to_string()][..]);
            assert_eq!(build.program, "ssh");
            assert_eq!(&build.args[..2], &["builder".to_string(), "--".to_string()][..]);
            assert!(build.args[2].contains("http://ports.ubuntu.com/ubuntu-ports"));
            assert_eq!(&fetch.args[6..], &["builder:/b/partial.arm64/".to_string(), "/b/partial.arm64/".to_string()][..]);
        }
        other => panic!("unexpected {:?}", other),
    }
    assert!(remote_outcome(true, true));
    assert!(!remote_outcome(true, false));
    assert!(!remote_outcome(false, true));
}

#[test]
fn chroot_scripts() {
    let focal = Suite::new("focal").unwrap();
    let s = chroot_script(&Arch("amd64"), &focal);
    assert!(s.starts_with("#!/usr/bin/env bash\n\nCHROOT=\"/srv/chroot/focal-amd64-sbuild\"\n"));
    assert!(s.ends_with("        'http://us.archive.ubuntu.com/ubuntu'\nfi\n"));
    let u = update_script(&Arch("i386"), &focal);
    assert!(u.ends_with("    '--arch=i386' \\\n    'focal' \\\n"));
    let c = script_command(&Arch("amd64"), &None, u.clone());
    assert_eq!(c.program, "sh");
    let r = script_command(&Arch("arm64"), &Some("h".to_string()), u);
    assert_eq!(r.program, "ssh");
    assert_eq!(r.args[0], "h");
}
