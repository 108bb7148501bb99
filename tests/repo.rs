use pop_ci::repo::{Arch, Pocket, RepoInfo, Suite, SuiteDistro, SuiteWildcard};

#[test]
fn suite_lookup() {
    let focal = Suite::new("focal").unwrap();
    assert_eq!(focal.id(), "focal");
    assert_eq!(focal.version(), "20.04");
    assert_eq!(focal.distro(), SuiteDistro::All);
    assert_eq!(Suite::new("lunar").unwrap().distro(), SuiteDistro::Ubuntu);
    assert_eq!(Suite::new("sid"), None);
    assert_eq!(Suite::all().len(), 6);
}

#[test]
fn suite_wildcards() {
    let bionic = Suite::new("bionic").unwrap();
    let focal = Suite::new("focal").unwrap();
    let jammy = Suite::new("jammy").unwrap();
    assert!(!bionic.wildcard("linux"));
    assert!(focal.wildcard("linux"));
    assert!(focal.wildcard("shop"));
    assert!(!focal.wildcard("not-a-listed-repo"));
    assert!(jammy.wildcard("anything"));
    assert_eq!(focal.2, SuiteWildcard::Focal);
}

#[test]
fn arch_predicates() {
    assert!(Arch("amd64").build_all());
    assert!(!Arch("i386").build_all());
    assert!(Arch("amd64").build_linux_any());
    assert!(Arch("arm64").build_linux_any());
    assert!(!Arch("i386").build_linux_any());
    assert!(Arch("arm64").is_arm());
    assert!(!Arch("amd64").is_arm());
    assert_eq!(Arch("i386").id(), "i386");
}

#[test]
fn arch_mirrors() {
    assert_eq!(Arch("amd64").ubuntu_mirror("focal"), "http://us.archive.ubuntu.com/ubuntu");
    assert_eq!(Arch("i386").ubuntu_mirror("jammy"), "http://apt.pop-os.org/ubuntu");
    assert_eq!(Arch("arm64").ubuntu_mirror("focal"), "http://ports.ubuntu.com/ubuntu-ports");
}

#[test]
fn repo_info_per_suite() {
    let dev = RepoInfo::new(&Suite::new("jammy").unwrap(), true);
    assert_eq!(dev.key, "scripts/.ppa-dev.asc");
    assert_eq!(dev.dput, Some("ppa:system76-dev/pre-stable"));
    assert_eq!(dev.archs, vec![Arch("amd64"), Arch("i386")]);
    let focal = RepoInfo::new(&Suite::new("focal").unwrap(), false);
    assert_eq!(focal.release, "http://ppa.launchpad.net/system76/pop/ubuntu");
    assert_eq!(focal.dput, Some("ppa:system76/proposed"));
    let noble = RepoInfo::new(&Suite::new("noble").unwrap(), false);
    assert_eq!(noble.dput, None);
    assert_eq!(noble.archs, vec![Arch("amd64"), Arch("i386")]);
    let jammy = RepoInfo::new(&Suite::new("jammy").unwrap(), false);
    assert_eq!(jammy.key, "scripts/.iso.asc");
    assert_eq!(jammy.staging, "http://apt.pop-os.org/staging/master");
    assert_eq!(jammy.archs, vec![Arch("amd64"), Arch("i386"), Arch("arm64")]);
}

#[test]
fn pocket_identity() {
    assert_eq!(Pocket::new("master").id(), "master");
    assert_eq!(Pocket::new("master"), Pocket::new("master"));
}
