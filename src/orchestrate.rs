//! The orchestrator's decisions: what each cache level retains, how the
//! rebuild signal travels upward, and the registry of build logs.

use vstd::prelude::*;
use crate::cache::{failure_on, lemma_force, ops_on, publishes};
use crate::config::{dev_repos, is_dev_repo, listed};
use crate::repo::{Arch, RepoInfo};
use crate::resolve::{RepoBuild, suite_ids};
use crate::text::{str_eq, views};

verus! {

/// Whether a repository checkout named `name` is built: every one in
/// release mode, only the shared ones in development mode.
pub fn repo_selected(name: &str, dev: bool) -> (r: bool)
    ensures
        r == (!dev || listed(dev_repos(), name@)),
{
    !dev || is_dev_repo(name)
}

/// What the root of the cache retains.
pub fn root_retain() -> (r: Vec<String>)
    ensures
        views(r@) == seq!["git"@, "apt"@, "log"@],
{
    let r = vec!["git".to_owned(), "apt".to_owned(), "log".to_owned()];
    assert(views(r@) =~= seq!["git"@, "apt"@, "log"@]);
    r
}

/// What the cache of a pocket retains.
pub fn pocket_retain() -> (r: Vec<String>)
    ensures
        views(r@) == seq!["dists"@, "pool"@],
{
    let r = vec!["dists".to_owned(), "pool".to_owned()];
    assert(views(r@) =~= seq!["dists"@, "pool"@]);
    r
}

/// What the cache of a commit retains: its archive and the suites it is
/// built for.
pub fn commit_retain(build: &RepoBuild) -> (r: Vec<String>)
    ensures
        views(r@) == seq!["archive.tar.gz"@] + suite_ids(build.suites@),
{
    let mut r = vec!["archive.tar.gz".to_owned()];
    let mut i: usize = 0;
    assert(suite_ids(build.suites@).subrange(0, 0) =~= Seq::<Seq<char>>::empty());
    assert(views(r@) =~= seq!["archive.tar.gz"@] + suite_ids(build.suites@).subrange(0, 0));
    while i < build.suites.len()
        invariant
            i <= build.suites@.len(),
            views(r@) == seq!["archive.tar.gz"@] + suite_ids(build.suites@).subrange(0, i as int),
        decreases build.suites@.len() - i,
    {
        let ghost before = r@;
        r.push(build.suites[i].suite.id().to_owned());
        assert(views(r@) =~= views(before).push(build.suites@[i as int].suite.0@));
        assert(suite_ids(build.suites@).subrange(0, i + 1) =~= suite_ids(build.suites@).subrange(0, i as int).push(
            build.suites@[i as int].suite.0@,
        ));
        i = i + 1;
    }
    assert(suite_ids(build.suites@).subrange(0, build.suites@.len() as int) =~= suite_ids(build.suites@));
    r
}

pub open spec fn arch_ids(v: Seq<Arch>) -> Seq<Seq<char>> {
    v.map_values(|a: Arch| a@)
}

/// What the cache of a suite retains: its source and its architectures.
pub fn suite_retain(info: &RepoInfo) -> (r: Vec<String>)
    ensures
        views(r@) == seq!["source"@] + arch_ids(info.archs@),
{
    let mut r = vec!["source".to_owned()];
    let mut i: usize = 0;
    assert(arch_ids(info.archs@).subrange(0, 0) =~= Seq::<Seq<char>>::empty());
    assert(views(r@) =~= seq!["source"@] + arch_ids(info.archs@).subrange(0, 0));
    while i < info.archs.len()
        invariant
            i <= info.archs@.len(),
            views(r@) == seq!["source"@] + arch_ids(info.archs@).subrange(0, i as int),
        decreases info.archs@.len() - i,
    {
        let ghost before = r@;
        r.push(info.archs[i].id().to_owned());
        assert(views(r@) =~= views(before).push(info.archs@[i as int]@));
        assert(arch_ids(info.archs@).subrange(0, i + 1) =~= arch_ids(info.archs@).subrange(0, i as int).push(
            info.archs@[i as int]@,
        ));
        i = i + 1;
    }
    assert(arch_ids(info.archs@).subrange(0, info.archs@.len() as int) =~= arch_ids(info.archs@));
    r
}

/// Whether any of `flags` is set: the `force` of an entry built from inputs
/// with these `rebuilt` flags.
pub fn any_rebuilt(flags: &Vec<bool>) -> (r: bool)
    ensures
        r == flags@.contains(true),
{
    let mut i: usize = 0;
    while i < flags.len()
        invariant
            i <= flags@.len(),
            forall|j: int| 0 <= j < i ==> !flags@[j],
        decreases flags@.len() - i,
    {
        if flags[i] {
            return true;
        }
        i = i + 1;
    }
    false
}

/// An entry built with `force` set to [`any_rebuilt`] of its inputs'
/// `rebuilt` flags reports `rebuilt` whenever one of the inputs does, when
/// its build ends without error.
pub proof fn lemma_rebuild_propagates(node: Set<Seq<char>>, name: Seq<char>, inputs: Seq<bool>, i: int)
    requires
        0 <= i < inputs.len(),
        inputs[i],
        failure_on(node, name, inputs.contains(true)) is None,
    ensures
        publishes(ops_on(node, name, inputs.contains(true))),
{
    assert(inputs.contains(true));
    lemma_force(node, name, true);
}

/// The `force` of a suite's source build: the commit archive was rebuilt.
pub fn source_force(archive_rebuilt: bool) -> (r: bool)
    ensures
        r == archive_rebuilt,
{
    archive_rebuilt
}

/// How the rebuild signal and the failures of one suite's builds travel: the
/// binary builds are forced by a rebuilt source or a retry, the package is
/// rebuilt when its source or any successful binary build was, and it is
/// installed only when no binary build failed.
#[derive(Clone, Copy, Debug, PartialEq, Eq, Structural)]
pub struct SuiteSignal {
    pub source_rebuilt: bool,
    pub rebuilt: bool,
    pub failed: bool,
}

impl SuiteSignal {
    /// The signal once the source is built.
    pub fn new(source_rebuilt: bool) -> (r: SuiteSignal)
        ensures
            r.source_rebuilt == source_rebuilt,
            r.rebuilt == source_rebuilt,
            !r.failed,
    {
        SuiteSignal { source_rebuilt, rebuilt: source_rebuilt, failed: false }
    }

    /// The `force` of one architecture's build.
    pub fn binary_force(&self, retry: bool) -> (r: bool)
        ensures
            r == (self.source_rebuilt || retry),
    {
        self.source_rebuilt || retry
    }

    /// Takes in one architecture's outcome: whether it succeeded and, if so,
    /// whether it was rebuilt.
    pub fn record(&mut self, ok: bool, rebuilt: bool)
        ensures
            final(self).source_rebuilt == old(self).source_rebuilt,
            final(self).rebuilt == (old(self).rebuilt || (ok && rebuilt)),
            final(self).failed == (old(self).failed || !ok),
    {
        if ok && rebuilt {
            self.rebuilt = true;
        }
        if !ok {
            self.failed = true;
        }
    }

    /// Whether the package goes into the pockets that want it.
    pub fn installable(&self) -> (r: bool)
        ensures
            r == !self.failed,
    {
        !self.failed
    }
}

/// The signal after the outcomes `(ok, rebuilt)` of a suite's architectures,
/// in order.
pub open spec fn signal_after(s: SuiteSignal, outcomes: Seq<(bool, bool)>) -> SuiteSignal
    decreases outcomes.len(),
{
    if outcomes.len() == 0 {
        s
    } else {
        let t = signal_after(s, outcomes.drop_last());
        SuiteSignal {
            source_rebuilt: t.source_rebuilt,
            rebuilt: t.rebuilt || (outcomes.last().0 && outcomes.last().1),
            failed: t.failed || !outcomes.last().0,
        }
    }
}

/// After any outcomes, a suite's package is rebuilt when its source was or
/// when one successful architecture was, and it is installed exactly when
/// every architecture succeeded.
pub proof fn lemma_suite_signal(source_rebuilt: bool, outcomes: Seq<(bool, bool)>)
    ensures
        signal_after((SuiteSignal { source_rebuilt, rebuilt: source_rebuilt, failed: false }), outcomes).rebuilt == (source_rebuilt || exists|i: int|
            0 <= i < outcomes.len() && outcomes[i].0 && outcomes[i].1),
        signal_after((SuiteSignal { source_rebuilt, rebuilt: source_rebuilt, failed: false }), outcomes).failed == (exists|i: int|
            0 <= i < outcomes.len() && !outcomes[i].0),
    decreases outcomes.len(),
{
    if outcomes.len() > 0 {
        let init = outcomes.drop_last();
        lemma_suite_signal(source_rebuilt, init);
        let n = outcomes.len() - 1;
        assert forall|i: int| 0 <= i < init.len() implies init[i] == outcomes[i] by {}
        if exists|i: int| 0 <= i < outcomes.len() && outcomes[i].0 && outcomes[i].1 {
            let i = choose|i: int| 0 <= i < outcomes.len() && outcomes[i].0 && outcomes[i].1;
            if i < n {
                assert(init[i] == outcomes[i]);
            }
        }
        if exists|i: int| 0 <= i < outcomes.len() && !outcomes[i].0 {
            let i = choose|i: int| 0 <= i < outcomes.len() && !outcomes[i].0;
            if i < n {
                assert(init[i] == outcomes[i]);
            }
        }
    }
}

/// A registered build log: its name in the log cache, where it lies now,
/// and whether it is new in this run.
#[derive(Clone, Debug, PartialEq, Eq)]
pub struct LogEntry {
    pub name: String,
    pub path: String,
    pub rebuilt: bool,
}

/// Build logs by name, each name once.
#[derive(Debug, PartialEq, Eq)]
pub struct LogBook {
    pub entries: Vec<LogEntry>,
}

pub open spec fn log_names(v: Seq<LogEntry>) -> Seq<Seq<char>> {
    v.map_values(|e: LogEntry| e.name@)
}

impl LogBook {
    pub open spec fn wf(&self) -> bool {
        log_names(self.entries@).no_duplicates()
    }

    pub fn new() -> (r: LogBook)
        ensures
            r.wf(),
            r.entries@.len() == 0,
    {
        let r = LogBook { entries: Vec::new() };
        assert(log_names(r.entries@) =~= Seq::<Seq<char>>::empty());
        r
    }

    /// Registers a log. A name that is already registered is refused and
    /// nothing changes; the caller treats that as a broken invariant.
    pub fn insert(&mut self, name: &str, path: &str, rebuilt: bool) -> (r: bool)
        requires
            old(self).wf(),
        ensures
            final(self).wf(),
            r == !log_names(old(self).entries@).contains(name@),
            r ==> final(self).entries@.len() == old(self).entries@.len() + 1,
            r ==> final(self).entries@.last().name@ == name@,
            r ==> final(self).entries@.last().path@ == path@,
            r ==> final(self).entries@.last().rebuilt == rebuilt,
            r ==> final(self).entries@.drop_last() == old(self).entries@,
            !r ==> final(self).entries@ == old(self).entries@,
    {
        let mut i: usize = 0;
        while i < self.entries.len()
            invariant
                i <= self.entries@.len(),
                self.entries@ == old(self).entries@,
                self.wf(),
                forall|j: int| 0 <= j < i ==> self.entries@[j].name@ != name@,
            decreases self.entries@.len() - i,
        {
            if str_eq(self.entries[i].name.as_str(), name) {
                assert(log_names(self.entries@)[i as int] == name@);
                return false;
            }
            i = i + 1;
        }
        assert(!log_names(self.entries@).contains(name@)) by {
            if log_names(self.entries@).contains(name@) {
                let j = choose|j: int| 0 <= j < log_names(self.entries@).len() && log_names(self.entries@)[j] == name@;
                assert(self.entries@[j].name@ == name@);
            }
        }
        let ghost before = self.entries@;
        let e = LogEntry { name: name.to_owned(), path: path.to_owned(), rebuilt };
        self.entries.push(e);
        assert(log_names(self.entries@) =~= log_names(before).push(name@));
        assert(log_names(before).push(name@).no_duplicates()) by {
            broadcast use vstd::seq_lib::group_seq_properties;
        }
        assert(self.entries@.drop_last() =~= before);
        true
    }
}

} // verus!
