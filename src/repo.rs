//! The catalog: architectures, pockets, suites and per-suite repository data.

use vstd::prelude::*;
use crate::config::{dev_repos, is_pop_focal_repo, listed, pop_focal_repos};
use crate::text::str_eq;

verus! {

/// A build architecture, such as `amd64`.
#[derive(Clone, Copy, Debug, PartialEq, Eq, Hash, PartialOrd, Ord)]
pub struct Arch(pub &'static str);

impl View for Arch {
    type V = Seq<char>;

    open spec fn view(&self) -> Seq<char> {
        self.0@
    }
}

/// The architecture that also builds the `all` packages.
pub open spec fn builds_all(id: Seq<char>) -> bool {
    id == "amd64"@
}

/// The architectures that match `linux-any`.
pub open spec fn builds_linux_any(id: Seq<char>) -> bool {
    id == "amd64"@ || id == "arm64"@
}

/// The architectures that are built on the remote ARM builder.
pub open spec fn arch_is_arm(id: Seq<char>) -> bool {
    id == "arm64"@ || id == "armhf"@
}

/// The upstream mirror for an architecture and a release codename.
pub open spec fn mirror_of(id: Seq<char>, release: Seq<char>) -> Seq<char> {
    if id == "amd64"@ || id == "i386"@ {
        if release == "focal"@ {
            "http://us.archive.ubuntu.com/ubuntu"@
        } else {
            "http://apt.pop-os.org/ubuntu"@
        }
    } else {
        "http://ports.ubuntu.com/ubuntu-ports"@
    }
}

impl Arch {
    pub fn id(&self) -> (r: &str)
        ensures
            r@ == self@,
    {
        self.0
    }

    pub fn build_all(&self) -> (r: bool)
        ensures
            r == builds_all(self@),
    {
        str_eq(self.0, "amd64")
    }

    pub fn build_linux_any(&self) -> (r: bool)
        ensures
            r == builds_linux_any(self@),
    {
        str_eq(self.0, "amd64") || str_eq(self.0, "arm64")
    }

    pub fn is_arm(&self) -> (r: bool)
        ensures
            r == arch_is_arm(self@),
    {
        str_eq(self.0, "arm64") || str_eq(self.0, "armhf")
    }

    pub fn ubuntu_mirror(&self, release: &str) -> (r: &'static str)
        ensures
            r@ == mirror_of(self@, release@),
    {
        if str_eq(self.0, "amd64") || str_eq(self.0, "i386") {
            if str_eq(release, "focal") {
                "http://us.archive.ubuntu.com/ubuntu"
            } else {
                "http://apt.pop-os.org/ubuntu"
            }
        } else {
            "http://ports.ubuntu.com/ubuntu-ports"
        }
    }
}

/// A channel of the archive, named by the first segment of a branch name.
#[derive(Clone, Debug, PartialEq, Eq, Hash, PartialOrd, Ord)]
pub struct Pocket(pub String);

impl View for Pocket {
    type V = Seq<char>;

    open spec fn view(&self) -> Seq<char> {
        self.0@
    }
}

impl Pocket {
    pub fn new(id: &str) -> (r: Self)
        ensures
            r@ == id@,
    {
        Pocket(id.to_owned())
    }

    pub fn id(&self) -> (r: &str)
        ensures
            r@ == self@,
    {
        self.0.as_str()
    }
}

/// A file of a package: its file name and where it lies.
#[derive(Clone, Debug, PartialEq, Eq)]
pub struct NamedPath {
    pub name: String,
    pub path: String,
}

/// The files built for one repository, commit and suite.
#[derive(Clone, Debug, PartialEq, Eq)]
pub struct Package {
    pub rebuilt: bool,
    pub changes: Vec<NamedPath>,
    pub dscs: Vec<NamedPath>,
    pub tars: Vec<NamedPath>,
    pub archs: Vec<Arch>,
    pub debs: Vec<NamedPath>,
}

/// Which repositories a bare pocket branch builds for a suite.
#[derive(Clone, Copy, Debug, PartialEq, Eq, Structural, Hash, PartialOrd, Ord)]
pub enum SuiteWildcard {
    Never,
    Focal,
    All,
}

/// Which distribution a suite is built for.
#[derive(Clone, Copy, Debug, PartialEq, Eq, Structural, Hash, PartialOrd, Ord)]
pub enum SuiteDistro {
    All,
    Pop,
    Ubuntu,
}

/// A suite: codename, version, wildcard policy and distribution class.
#[derive(Clone, Copy, Debug, PartialEq, Eq, Hash, PartialOrd, Ord)]
pub struct Suite(pub &'static str, pub &'static str, pub SuiteWildcard, pub SuiteDistro);

/// Every supported release.
pub open spec fn suite_table() -> Seq<Suite> {
    seq![
        Suite("bionic", "18.04", SuiteWildcard::Never, SuiteDistro::All),
        Suite("focal", "20.04", SuiteWildcard::Focal, SuiteDistro::All),
        Suite("jammy", "22.04", SuiteWildcard::All, SuiteDistro::All),
        Suite("lunar", "23.04", SuiteWildcard::Never, SuiteDistro::Ubuntu),
        Suite("mantic", "23.10", SuiteWildcard::Never, SuiteDistro::Ubuntu),
        Suite("noble", "24.04", SuiteWildcard::All, SuiteDistro::All),
    ]
}

/// The first suite of `table` whose codename is `id`.
pub open spec fn find_suite(table: Seq<Suite>, id: Seq<char>) -> Option<Suite>
    decreases table.len(),
{
    if table.len() == 0 {
        None
    } else if table[0].0@ == id {
        Some(table[0])
    } else {
        find_suite(table.drop_first(), id)
    }
}

/// Whether a bare pocket branch of `repo` builds for a suite of policy `w`.
pub open spec fn wildcard_allows(w: SuiteWildcard, repo: Seq<char>) -> bool {
    match w {
        SuiteWildcard::Never => false,
        SuiteWildcard::Focal => listed(dev_repos(), repo) || listed(pop_focal_repos(), repo),
        SuiteWildcard::All => true,
    }
}

/// Looks a codename up in `table`.
pub fn lookup_suite(table: &Vec<Suite>, id: &str) -> (r: Option<Suite>)
    ensures
        r == find_suite(table@, id@),
{
    let mut i: usize = 0;
    assert(table@.subrange(0, table@.len() as int) =~= table@);
    while i < table.len()
        invariant
            i <= table@.len(),
            find_suite(table@, id@) == find_suite(table@.subrange(i as int, table@.len() as int), id@),
        decreases table@.len() - i,
    {
        let ghost rest = table@.subrange(i as int, table@.len() as int);
        assert(rest.drop_first() =~= table@.subrange(i + 1, table@.len() as int));
        if str_eq(table[i].0, id) {
            return Some(table[i]);
        }
        i = i + 1;
    }
    assert(table@.subrange(i as int, table@.len() as int) =~= Seq::<Suite>::empty());
    None
}

impl Suite {
    /// The table of every supported release.
    pub fn all() -> (r: Vec<Suite>)
        ensures
            r@ == suite_table(),
    {
        let v = vec![
            Suite("bionic", "18.04", SuiteWildcard::Never, SuiteDistro::All),
            Suite("focal", "20.04", SuiteWildcard::Focal, SuiteDistro::All),
            Suite("jammy", "22.04", SuiteWildcard::All, SuiteDistro::All),
            Suite("lunar", "23.04", SuiteWildcard::Never, SuiteDistro::Ubuntu),
            Suite("mantic", "23.10", SuiteWildcard::Never, SuiteDistro::Ubuntu),
            Suite("noble", "24.04", SuiteWildcard::All, SuiteDistro::All),
        ];
        assert(v@ =~= suite_table());
        v
    }

    pub fn new(id: &str) -> (r: Option<Self>)
        ensures
            r == find_suite(suite_table(), id@),
    {
        let table = Suite::all();
        lookup_suite(&table, id)
    }

    pub fn id(&self) -> (r: &str)
        ensures
            r@ == self.0@,
    {
        self.0
    }

    pub fn version(&self) -> (r: &str)
        ensures
            r@ == self.1@,
    {
        self.1
    }

    pub fn wildcard(&self, repo_name: &str) -> (r: bool)
        ensures
            r == wildcard_allows(self.2, repo_name@),
    {
        match self.2 {
            SuiteWildcard::Never => false,
            SuiteWildcard::Focal => is_pop_focal_repo(repo_name),
            SuiteWildcard::All => true,
        }
    }

    pub fn distro(&self) -> (r: SuiteDistro)
        ensures
            r == self.3,
    {
        self.3
    }
}

/// Per-suite repository data: signing key, upstream repositories, upload
/// target and architectures.
#[derive(Clone, Debug, PartialEq, Eq)]
pub struct RepoInfo {
    pub key: String,
    pub release: &'static str,
    pub staging: &'static str,
    pub dput: Option<&'static str>,
    pub archs: Vec<Arch>,
}

pub open spec fn every_arch() -> Seq<Arch> {
    seq![Arch("amd64"), Arch("i386"), Arch("arm64")]
}

pub open spec fn x86_archs() -> Seq<Arch> {
    seq![Arch("amd64"), Arch("i386")]
}

/// Where the packages of a suite are published.
#[derive(Clone, Copy, Debug, PartialEq, Eq, Structural)]
pub enum RepoTarget {
    /// The upstream distribution's development PPA.
    DevPpa,
    /// The PPA used by the releases before 21.10.
    ReleasePpa,
    /// The release archive, without ARM builds.
    ArchiveX86,
    /// The release archive.
    Archive,
}

pub open spec fn repo_target(suite: Seq<char>, dev: bool) -> RepoTarget {
    if dev {
        RepoTarget::DevPpa
    } else if suite == "bionic"@ || suite == "focal"@ {
        RepoTarget::ReleasePpa
    } else if suite == "noble"@ {
        RepoTarget::ArchiveX86
    } else {
        RepoTarget::Archive
    }
}

pub open spec fn repo_info_fits(r: RepoInfo, t: RepoTarget) -> bool {
    match t {
        RepoTarget::DevPpa => {
            &&& r.key@ == "scripts/.ppa-dev.asc"@
            &&& r.release@ == "http://ppa.launchpad.net/system76-dev/stable/ubuntu"@
            &&& r.staging@ == "http://ppa.launchpad.net/system76-dev/pre-stable/ubuntu"@
            &&& r.dput == Some("ppa:system76-dev/pre-stable")
            &&& r.archs@ == x86_archs()
        },
        RepoTarget::ReleasePpa => {
            &&& r.key@ == "scripts/.ppa.asc"@
            &&& r.release@ == "http://ppa.launchpad.net/system76/pop/ubuntu"@
            &&& r.staging@ == "http://ppa.launchpad.net/system76/proposed/ubuntu"@
            &&& r.dput == Some("ppa:system76/proposed")
            &&& r.archs@ == x86_archs()
        },
        _ => {
            &&& r.key@ == "scripts/.iso.asc"@
            &&& r.release@ == "http://apt.pop-os.org/release"@
            &&& r.staging@ == "http://apt.pop-os.org/staging/master"@
            &&& r.dput.is_none()
            &&& r.archs@ == (if t == RepoTarget::ArchiveX86 { x86_archs() } else { every_arch() })
        },
    }
}

impl RepoInfo {
    /// The repository data of `suite`; `key` is relative to the working
    /// directory.
    pub fn new(suite: &Suite, dev: bool) -> (r: Self)
        ensures
            repo_info_fits(r, repo_target(suite.0@, dev)),
    {
        if dev {
            let archs = vec![Arch("amd64"), Arch("i386")];
            assert(archs@ =~= x86_archs());
            return RepoInfo {
                key: "scripts/.ppa-dev.asc".to_owned(),
                release: "http://ppa.launchpad.net/system76-dev/stable/ubuntu",
                staging: "http://ppa.launchpad.net/system76-dev/pre-stable/ubuntu",
                dput: Some("ppa:system76-dev/pre-stable"),
                archs,
            };
        }
        let id = suite.0;
        if str_eq(id, "bionic") || str_eq(id, "focal") {
            let archs = vec![Arch("amd64"), Arch("i386")];
            assert(archs@ =~= x86_archs());
            RepoInfo {
                key: "scripts/.ppa.asc".to_owned(),
                release: "http://ppa.launchpad.net/system76/pop/ubuntu",
                staging: "http://ppa.launchpad.net/system76/proposed/ubuntu",
                dput: Some("ppa:system76/proposed"),
                archs,
            }
        } else if str_eq(id, "noble") {
            let archs = vec![Arch("amd64"), Arch("i386")];
            assert(archs@ =~= x86_archs());
            RepoInfo {
                key: "scripts/.iso.asc".to_owned(),
                release: "http://apt.pop-os.org/release",
                staging: "http://apt.pop-os.org/staging/master",
                dput: None,
                archs,
            }
        } else {
            let archs = vec![Arch("amd64"), Arch("i386"), Arch("arm64")];
            assert(archs@ =~= every_arch());
            RepoInfo {
                key: "scripts/.iso.asc".to_owned(),
                release: "http://apt.pop-os.org/release",
                staging: "http://apt.pop-os.org/staging/master",
                dput: None,
                archs,
            }
        }
    }
}

} // verus!
