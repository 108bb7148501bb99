//! Branch resolution: which (pocket, suite) pairs each branch head of a
//! repository is built for, and the builds per commit that follow.

use vstd::prelude::*;
use crate::git::{GitBranch, GitCommit, heads_view};
use crate::repo::{Pocket, Suite, SuiteDistro, wildcard_allows};
use crate::text::{split_at_char, split_on, str_eq, views};

verus! {

/// A suite of distribution class `d` is built in the mode given by `dev`.
pub open spec fn distro_fits(d: SuiteDistro, dev: bool) -> bool {
    match d {
        SuiteDistro::All => true,
        SuiteDistro::Pop => !dev,
        SuiteDistro::Ubuntu => dev,
    }
}

/// A resolved build request: (pocket, suite) wants `commit`, named by
/// `branch`.
#[derive(Clone, Debug, PartialEq, Eq)]
pub struct PocketEntry {
    pub pocket: Pocket,
    pub suite: Suite,
    pub commit: GitCommit,
    pub branch: GitBranch,
}

/// Requests keyed by (pocket, suite codename), valued by (commit, branch).
pub type PocketMap = Map<(Seq<char>, Seq<char>), (Seq<char>, Seq<char>)>;

/// The effect of one branch on one suite.
pub open spec fn suite_step(
    m: PocketMap,
    pocket: Seq<char>,
    patterns: Seq<Seq<char>>,
    commit: Seq<char>,
    branch: Seq<char>,
    suite: Suite,
    repo: Seq<char>,
    dev: bool,
) -> PocketMap {
    let key = (pocket, suite.0@);
    if !distro_fits(suite.3, dev) {
        m
    } else if patterns.len() > 0 {
        if patterns.contains(suite.0@) {
            m.insert(key, (commit, branch))
        } else {
            m
        }
    } else if wildcard_allows(suite.2, repo) && !m.contains_key(key) {
        m.insert(key, (commit, branch))
    } else {
        m
    }
}

/// The effect of one branch on the given suites, in order.
pub open spec fn suites_step(
    m: PocketMap,
    pocket: Seq<char>,
    patterns: Seq<Seq<char>>,
    commit: Seq<char>,
    branch: Seq<char>,
    suites: Seq<Suite>,
    repo: Seq<char>,
    dev: bool,
) -> PocketMap
    decreases suites.len(),
{
    if suites.len() == 0 {
        m
    } else {
        suite_step(
            suites_step(m, pocket, patterns, commit, branch, suites.drop_last(), repo, dev),
            pocket,
            patterns,
            commit,
            branch,
            suites.last(),
            repo,
            dev,
        )
    }
}

/// The pocket of a branch: its first `_`-separated segment.
pub open spec fn pocket_of(branch: Seq<char>) -> Seq<char> {
    split_on(branch, '_')[0]
}

/// The suite patterns of a branch: its other segments.
pub open spec fn patterns_of(branch: Seq<char>) -> Seq<Seq<char>> {
    split_on(branch, '_').drop_first()
}

/// The requests that the heads `(branch, commit)` give, heads in order.
pub open spec fn resolve(
    heads: Seq<(Seq<char>, Seq<char>)>,
    suites: Seq<Suite>,
    repo: Seq<char>,
    dev: bool,
) -> PocketMap
    decreases heads.len(),
{
    if heads.len() == 0 {
        Map::empty()
    } else {
        let (branch, commit) = heads.last();
        suites_step(
            resolve(heads.drop_last(), suites, repo, dev),
            pocket_of(branch),
            patterns_of(branch),
            commit,
            branch,
            suites,
            repo,
            dev,
        )
    }
}

pub open spec fn entry_key(e: PocketEntry) -> (Seq<char>, Seq<char>) {
    (e.pocket@, e.suite.0@)
}

pub open spec fn entry_value(e: PocketEntry) -> (Seq<char>, Seq<char>) {
    (e.commit@, e.branch@)
}

/// `es` lists the requests of `m`, each key once.
pub open spec fn represents(es: Seq<PocketEntry>, m: PocketMap) -> bool {
    &&& forall|i: int, j: int|
        0 <= i < j < es.len() ==> entry_key(#[trigger] es[i]) != entry_key(#[trigger] es[j])
    &&& forall|k: (Seq<char>, Seq<char>)|
        #![trigger m.contains_key(k)]
        m.contains_key(k) <==> exists|i: int| 0 <= i < es.len() && entry_key(es[i]) == k
    &&& forall|i: int| 0 <= i < es.len() ==> m[entry_key(#[trigger] es[i])] == entry_value(es[i])
    &&& forall|i: int| 0 <= i < es.len() ==> m.contains_key(entry_key(#[trigger] es[i]))
}

/// Where `(pocket, suite)` stands in `es`.
fn find_entry(es: &Vec<PocketEntry>, pocket: &str, suite: &str) -> (r: Option<usize>)
    ensures
        match r {
            Some(i) => i < es@.len() && entry_key(es@[i as int]) == (pocket@, suite@),
            None => forall|i: int| 0 <= i < es@.len() ==> entry_key(es@[i]) != (pocket@, suite@),
        },
{
    let mut i: usize = 0;
    while i < es.len()
        invariant
            i <= es@.len(),
            forall|j: int| 0 <= j < i ==> entry_key(es@[j]) != (pocket@, suite@),
        decreases es@.len() - i,
    {
        if str_eq(es[i].pocket.id(), pocket) && str_eq(es[i].suite.id(), suite) {
            return Some(i);
        }
        i = i + 1;
    }
    None
}

/// Records that (pocket, suite) wants (commit, branch), replacing an earlier
/// request of the same key.
fn put_entry(es: &mut Vec<PocketEntry>, e: PocketEntry, Ghost(m): Ghost<PocketMap>)
    requires
        represents(old(es)@, m),
    ensures
        represents(final(es)@, m.insert(entry_key(e), entry_value(e))),
{
    let ghost k = entry_key(e);
    let ghost m2 = m.insert(k, entry_value(e));
    match find_entry(es, e.pocket.id(), e.suite.id()) {
        Some(i) => {
            es.set(i, e);
            assert forall|k2: (Seq<char>, Seq<char>)| #[trigger] m2.contains_key(k2) <==> exists|j: int|
                0 <= j < es@.len() && entry_key(es@[j]) == k2 by {
                if m.contains_key(k2) && k2 != k {
                    let j = choose|j: int| 0 <= j < old(es)@.len() && entry_key(old(es)@[j]) == k2;
                    assert(entry_key(es@[j]) == k2);
                }
                if k2 == k {
                    assert(entry_key(es@[i as int]) == k2);
                }
                if exists|j: int| 0 <= j < es@.len() && entry_key(es@[j]) == k2 {
                    let j = choose|j: int| 0 <= j < es@.len() && entry_key(es@[j]) == k2;
                    if j != i {
                        assert(entry_key(old(es)@[j]) == k2);
                    }
                }
            }
            assert forall|j: int| 0 <= j < es@.len() implies m2[entry_key(#[trigger] es@[j])]
                == entry_value(es@[j]) by {
                if j != i {
                    assert(es@[j] == old(es)@[j]);
                    assert(entry_key(old(es)@[j]) != k);
                }
            }
            assert forall|j: int| 0 <= j < es@.len() implies m2.contains_key(
                entry_key(#[trigger] es@[j]),
            ) by {
                if j != i {
                    assert(es@[j] == old(es)@[j]);
                }
            }
            assert forall|a: int, b: int|
                0 <= a < b < es@.len() implies entry_key(#[trigger] es@[a]) != entry_key(
                #[trigger] es@[b],
            ) by {
                if a != i as int && b != i as int {
                    assert(es@[a] == old(es)@[a]);
                    assert(es@[b] == old(es)@[b]);
                } else if a == i as int {
                    assert(es@[b] == old(es)@[b]);
                    assert(entry_key(old(es)@[a]) != entry_key(old(es)@[b]));
                } else {
                    assert(es@[a] == old(es)@[a]);
                    assert(entry_key(old(es)@[a]) != entry_key(old(es)@[b]));
                }
            }
        },
        None => {
            es.push(e);
            let ghost n: int = es@.len() - 1;
            assert forall|k2: (Seq<char>, Seq<char>)| #[trigger] m2.contains_key(k2) <==> exists|j: int|
                0 <= j < es@.len() && entry_key(es@[j]) == k2 by {
                if m.contains_key(k2) && k2 != k {
                    let j = choose|j: int| 0 <= j < old(es)@.len() && entry_key(old(es)@[j]) == k2;
                    assert(entry_key(es@[j]) == k2);
                }
                if k2 == k {
                    assert(entry_key(es@[n]) == k2);
                }
                if exists|j: int| 0 <= j < es@.len() && entry_key(es@[j]) == k2 {
                    let j = choose|j: int| 0 <= j < es@.len() && entry_key(es@[j]) == k2;
                    if j != n {
                        assert(entry_key(old(es)@[j]) == k2);
                    }
                }
            }
            assert forall|j: int| 0 <= j < es@.len() implies m2[entry_key(#[trigger] es@[j])]
                == entry_value(es@[j]) by {
                if j != n {
                    assert(es@[j] == old(es)@[j]);
                    assert(entry_key(old(es)@[j]) != k);
                }
            }
            assert forall|j: int| 0 <= j < es@.len() implies m2.contains_key(
                entry_key(#[trigger] es@[j]),
            ) by {
                if j != n {
                    assert(es@[j] == old(es)@[j]);
                }
            }
            assert forall|a: int, b: int|
                0 <= a < b < es@.len() implies entry_key(#[trigger] es@[a]) != entry_key(
                #[trigger] es@[b],
            ) by {
                assert(es@[a] == old(es)@[a]);
                if b != n {
                    assert(es@[b] == old(es)@[b]);
                }
            }
        },
    }
}

/// Whether a segment after the first of `parts` is `id`.
fn has_pattern(parts: &Vec<String>, id: &str) -> (r: bool)
    requires
        parts@.len() >= 1,
    ensures
        r == views(parts@).drop_first().contains(id@),
{
    let mut i: usize = 1;
    while i < parts.len()
        invariant
            1 <= i <= parts@.len(),
            forall|j: int| 1 <= j < i ==> parts@[j]@ != id@,
        decreases parts@.len() - i,
    {
        if str_eq(parts[i].as_str(), id) {
            assert(views(parts@).drop_first()[i - 1] == id@);
            return true;
        }
        i = i + 1;
    }
    assert forall|j: int| 0 <= j < views(parts@).drop_first().len() implies views(
        parts@,
    ).drop_first()[j] != id@ by {
        assert(views(parts@).drop_first()[j] == parts@[j + 1]@);
    }
    false
}

/// Whether a suite of class `d` is built in the mode given by `dev`.
pub fn distro_matches(d: SuiteDistro, dev: bool) -> (r: bool)
    ensures
        r == distro_fits(d, dev),
{
    match d {
        SuiteDistro::All => true,
        SuiteDistro::Pop => !dev,
        SuiteDistro::Ubuntu => dev,
    }
}

/// The (pocket, suite) requests of repository `repo_name`, whose branch
/// heads are `heads`, over the suite table `suites`. A branch
/// `<pocket>_<s1>_<s2>` asks for the suites it names, and a later such branch
/// replaces an earlier one; a bare `<pocket>` branch asks for each suite whose
/// wildcard policy admits the repository, unless the pair is already asked
/// for. Suites of the other distribution class are left out.
pub fn resolve_pockets(
    heads: &Vec<(GitBranch, GitCommit)>,
    repo_name: &str,
    dev: bool,
    suites: &Vec<Suite>,
) -> (r: Vec<PocketEntry>)
    ensures
        represents(r@, resolve(heads_view(heads@), suites@, repo_name@, dev)),
{
    let mut es: Vec<PocketEntry> = Vec::new();
    let mut i: usize = 0;
    while i < heads.len()
        invariant
            i <= heads@.len(),
            represents(es@, resolve(heads_view(heads@).subrange(0, i as int), suites@, repo_name@, dev)),
        decreases heads@.len() - i,
    {
        let ghost hv = heads_view(heads@).subrange(0, i + 1);
        assert(hv.drop_last() =~= heads_view(heads@).subrange(0, i as int));
        let branch = &heads[i].0;
        let commit = &heads[i].1;
        assert(hv.last() == (branch@, commit@));
        let parts = split_at_char(branch.id(), '_');
        proof {
            crate::text::lemma_split_on_nonempty(branch@, '_');
        }
        let ghost base = resolve(heads_view(heads@).subrange(0, i as int), suites@, repo_name@, dev);
        let ghost pocket = pocket_of(branch@);
        let ghost patterns = patterns_of(branch@);
        assert(parts@[0]@ == pocket);
        assert(views(parts@).drop_first() == patterns);
        let mut j: usize = 0;
        while j < suites.len()
            invariant
                j <= suites@.len(),
                parts@.len() >= 1,
                parts@[0]@ == pocket,
                views(parts@).drop_first() == patterns,
                represents(
                    es@,
                    suites_step(base, pocket, patterns, commit@, branch@, suites@.subrange(0, j as int), repo_name@, dev),
                ),
            decreases suites@.len() - j,
        {
            let ghost sv = suites@.subrange(0, j + 1);
            assert(sv.drop_last() =~= suites@.subrange(0, j as int));
            let ghost m = suites_step(base, pocket, patterns, commit@, branch@, suites@.subrange(0, j as int), repo_name@, dev);
            let suite = suites[j];
            assert(sv.last() == suite);
            if distro_matches(suite.3, dev) {
                let insert = if parts.len() > 1 {
                    has_pattern(&parts, suite.id())
                } else if suite.wildcard(repo_name) {
                    let found = find_entry(&es, parts[0].as_str(), suite.id());
                    proof {
                        let key = (pocket, suite.0@);
                        if found is Some {
                            assert(m.contains_key(key));
                        } else {
                            if m.contains_key(key) {
                                let w = choose|w: int| 0 <= w < es@.len() && entry_key(es@[w]) == key;
                            }
                        }
                    }
                    found.is_none()
                } else {
                    false
                };
                if insert {
                    let e = PocketEntry {
                        pocket: Pocket::new(parts[0].as_str()),
                        suite,
                        commit: GitCommit::new(commit.id()),
                        branch: GitBranch::new(branch.id()),
                    };
                    put_entry(&mut es, e, Ghost(m));
                }
            }
            j = j + 1;
        }
        assert(suites@.subrange(0, suites@.len() as int) =~= suites@);
        i = i + 1;
    }
    assert(heads_view(heads@).subrange(0, heads@.len() as int) =~= heads_view(heads@));
    es
}

/// The pockets that want one suite of a commit.
#[derive(Clone, Debug, PartialEq, Eq)]
pub struct SuitePockets {
    pub suite: Suite,
    pub pockets: Vec<Pocket>,
}

/// What is built of one commit: the branches that point at it and, per
/// suite, the pockets that want it.
#[derive(Clone, Debug, PartialEq, Eq)]
pub struct RepoBuild {
    pub commit: GitCommit,
    pub branches: Vec<GitBranch>,
    pub suites: Vec<SuitePockets>,
}

pub open spec fn commits_of(es: Seq<PocketEntry>) -> Set<Seq<char>> {
    Set::new(|c: Seq<char>| exists|k: int| 0 <= k < es.len() && es[k].commit@ == c)
}

pub open spec fn branches_of(es: Seq<PocketEntry>, c: Seq<char>) -> Set<Seq<char>> {
    Set::new(|b: Seq<char>| exists|k: int| 0 <= k < es.len() && es[k].commit@ == c && es[k].branch@ == b)
}

pub open spec fn suites_of(es: Seq<PocketEntry>, c: Seq<char>) -> Set<Seq<char>> {
    Set::new(|s: Seq<char>| exists|k: int| 0 <= k < es.len() && es[k].commit@ == c && es[k].suite.0@ == s)
}

pub open spec fn pockets_of(es: Seq<PocketEntry>, c: Seq<char>, s: Seq<char>) -> Set<Seq<char>> {
    Set::new(
        |p: Seq<char>|
            exists|k: int|
                0 <= k < es.len() && es[k].commit@ == c && es[k].suite.0@ == s && es[k].pocket@ == p,
    )
}

pub open spec fn branch_views(v: Seq<GitBranch>) -> Seq<Seq<char>> {
    v.map_values(|b: GitBranch| b@)
}

pub open spec fn pocket_views(v: Seq<Pocket>) -> Seq<Seq<char>> {
    v.map_values(|p: Pocket| p@)
}

pub open spec fn suite_ids(v: Seq<SuitePockets>) -> Seq<Seq<char>> {
    v.map_values(|sp: SuitePockets| sp.suite.0@)
}

pub open spec fn build_ids(v: Seq<RepoBuild>) -> Seq<Seq<char>> {
    v.map_values(|b: RepoBuild| b.commit@)
}

/// `b` is the build of its commit that the requests `es` give.
pub open spec fn build_fits(b: RepoBuild, es: Seq<PocketEntry>) -> bool {
    let c = b.commit@;
    &&& branch_views(b.branches@).no_duplicates()
    &&& branch_views(b.branches@).to_set() == branches_of(es, c)
    &&& suite_ids(b.suites@).no_duplicates()
    &&& suite_ids(b.suites@).to_set() == suites_of(es, c)
    &&& forall|j: int|
        0 <= j < b.suites@.len() ==> {
            &&& pocket_views((#[trigger] b.suites@[j]).pockets@).no_duplicates()
            &&& pocket_views(b.suites@[j].pockets@).to_set() == pockets_of(es, c, b.suites@[j].suite.0@)
        }
}

/// `bs` holds one build per commit that `es` names, each as [`build_fits`]
/// says.
pub open spec fn builds_fit(bs: Seq<RepoBuild>, es: Seq<PocketEntry>) -> bool {
    &&& build_ids(bs).no_duplicates()
    &&& build_ids(bs).to_set() == commits_of(es)
    &&& forall|j: int| 0 <= j < bs.len() ==> build_fits(#[trigger] bs[j], es)
}

/// Adds `b` to `v` unless it is there.
fn add_branch(v: &mut Vec<GitBranch>, b: &GitBranch)
    requires
        branch_views(old(v)@).no_duplicates(),
    ensures
        branch_views(final(v)@).no_duplicates(),
        branch_views(final(v)@).to_set() == branch_views(old(v)@).to_set().insert(b@),
{
    let mut i: usize = 0;
    while i < v.len()
        invariant
            i <= v@.len(),
            forall|j: int| 0 <= j < i ==> v@[j]@ != b@,
            v@ == old(v)@,
            branch_views(v@).no_duplicates(),
        decreases v@.len() - i,
    {
        if str_eq(v[i].id(), b.id()) {
            assert(branch_views(v@)[i as int] == b@);
            assert(branch_views(v@).to_set() =~= branch_views(v@).to_set().insert(b@));
            return;
        }
        i = i + 1;
    }
    let ghost before = branch_views(v@);
    v.push(GitBranch::new(b.id()));
    assert(branch_views(v@) =~= before.push(b@));
    assert(!before.contains(b@)) by {
        if before.contains(b@) {
            let j = choose|j: int| 0 <= j < before.len() && before[j] == b@;
            assert(v@[j]@ == b@);
        }
    }
    assert(before.push(b@).to_set() =~= before.to_set().insert(b@)) by {
        broadcast use vstd::seq_lib::group_seq_properties;
    }
    assert(before.push(b@).no_duplicates()) by {
        broadcast use vstd::seq_lib::group_seq_properties;
    }
}

/// Adds `p` to `v` unless it is there.
fn add_pocket(v: &mut Vec<Pocket>, p: &str)
    requires
        pocket_views(old(v)@).no_duplicates(),
    ensures
        pocket_views(final(v)@).no_duplicates(),
        pocket_views(final(v)@).to_set() == pocket_views(old(v)@).to_set().insert(p@),
{
    let mut i: usize = 0;
    while i < v.len()
        invariant
            i <= v@.len(),
            forall|j: int| 0 <= j < i ==> v@[j]@ != p@,
            v@ == old(v)@,
            pocket_views(v@).no_duplicates(),
        decreases v@.len() - i,
    {
        if str_eq(v[i].id(), p) {
            assert(pocket_views(v@)[i as int] == p@);
            assert(pocket_views(v@).to_set() =~= pocket_views(v@).to_set().insert(p@));
            return;
        }
        i = i + 1;
    }
    let ghost before = pocket_views(v@);
    v.push(Pocket::new(p));
    assert(pocket_views(v@) =~= before.push(p@));
    assert(!before.contains(p@)) by {
        if before.contains(p@) {
            let j = choose|j: int| 0 <= j < before.len() && before[j] == p@;
            assert(v@[j]@ == p@);
        }
    }
    assert(before.push(p@).to_set() =~= before.to_set().insert(p@)) by {
        broadcast use vstd::seq_lib::group_seq_properties;
    }
    assert(before.push(p@).no_duplicates()) by {
        broadcast use vstd::seq_lib::group_seq_properties;
    }
}

/// How the sets of a build grow by one more request.
proof fn lemma_push_sets(pre: Seq<PocketEntry>, e: PocketEntry, c: Seq<char>, s: Seq<char>)
    ensures
        commits_of(pre.push(e)) == commits_of(pre).insert(e.commit@),
        branches_of(pre.push(e), c) == (if c == e.commit@ {
            branches_of(pre, c).insert(e.branch@)
        } else {
            branches_of(pre, c)
        }),
        suites_of(pre.push(e), c) == (if c == e.commit@ {
            suites_of(pre, c).insert(e.suite.0@)
        } else {
            suites_of(pre, c)
        }),
        pockets_of(pre.push(e), c, s) == (if c == e.commit@ && s == e.suite.0@ {
            pockets_of(pre, c, s).insert(e.pocket@)
        } else {
            pockets_of(pre, c, s)
        }),
{
    let post = pre.push(e);
    let n = pre.len() as int;
    assert(post[n] == e);
    assert forall|k: int| 0 <= k < n implies post[k] == pre[k] by {}
    assert(commits_of(post) =~= commits_of(pre).insert(e.commit@)) by {
        assert forall|x: Seq<char>| commits_of(post).contains(x) implies commits_of(pre).insert(
            e.commit@,
        ).contains(x) by {
            let k = choose|k: int| 0 <= k < post.len() && post[k].commit@ == x;
            if k < n {
                assert(pre[k].commit@ == x);
            }
        }
        assert forall|x: Seq<char>| commits_of(pre).insert(e.commit@).contains(x) implies commits_of(
            post,
        ).contains(x) by {
            if x == e.commit@ {
                assert(post[n].commit@ == x);
            } else {
                let k = choose|k: int| 0 <= k < pre.len() && pre[k].commit@ == x;
                assert(post[k].commit@ == x);
            }
        }
    }
    let bp = if c == e.commit@ { branches_of(pre, c).insert(e.branch@) } else { branches_of(pre, c) };
    assert(branches_of(post, c) =~= bp) by {
        assert forall|x: Seq<char>| branches_of(post, c).contains(x) implies bp.contains(x) by {
            let k = choose|k: int| 0 <= k < post.len() && post[k].commit@ == c && post[k].branch@ == x;
            if k < n {
                assert(pre[k].commit@ == c && pre[k].branch@ == x);
            }
        }
        assert forall|x: Seq<char>| bp.contains(x) implies branches_of(post, c).contains(x) by {
            if c == e.commit@ && x == e.branch@ {
                assert(post[n].commit@ == c && post[n].branch@ == x);
            } else {
                let k = choose|k: int| 0 <= k < pre.len() && pre[k].commit@ == c && pre[k].branch@ == x;
                assert(post[k].commit@ == c && post[k].branch@ == x);
            }
        }
    }
    let sp = if c == e.commit@ { suites_of(pre, c).insert(e.suite.0@) } else { suites_of(pre, c) };
    assert(suites_of(post, c) =~= sp) by {
        assert forall|x: Seq<char>| suites_of(post, c).contains(x) implies sp.contains(x) by {
            let k = choose|k: int| 0 <= k < post.len() && post[k].commit@ == c && post[k].suite.0@ == x;
            if k < n {
                assert(pre[k].commit@ == c && pre[k].suite.0@ == x);
            }
        }
        assert forall|x: Seq<char>| sp.contains(x) implies suites_of(post, c).contains(x) by {
            if c == e.commit@ && x == e.suite.0@ {
                assert(post[n].commit@ == c && post[n].suite.0@ == x);
            } else {
                let k = choose|k: int| 0 <= k < pre.len() && pre[k].commit@ == c && pre[k].suite.0@ == x;
                assert(post[k].commit@ == c && post[k].suite.0@ == x);
            }
        }
    }
    let pp = if c == e.commit@ && s == e.suite.0@ {
        pockets_of(pre, c, s).insert(e.pocket@)
    } else {
        pockets_of(pre, c, s)
    };
    assert(pockets_of(post, c, s) =~= pp) by {
        assert forall|x: Seq<char>| pockets_of(post, c, s).contains(x) implies pp.contains(x) by {
            let k = choose|k: int|
                0 <= k < post.len() && post[k].commit@ == c && post[k].suite.0@ == s && post[k].pocket@
                    == x;
            if k < n {
                assert(pre[k].commit@ == c && pre[k].suite.0@ == s && pre[k].pocket@ == x);
            }
        }
        assert forall|x: Seq<char>| pp.contains(x) implies pockets_of(post, c, s).contains(x) by {
            if c == e.commit@ && s == e.suite.0@ && x == e.pocket@ {
                assert(post[n].commit@ == c && post[n].suite.0@ == s && post[n].pocket@ == x);
            } else {
                let k = choose|k: int|
                    0 <= k < pre.len() && pre[k].commit@ == c && pre[k].suite.0@ == s && pre[k].pocket@
                        == x;
                assert(post[k].commit@ == c && post[k].suite.0@ == s && post[k].pocket@ == x);
            }
        }
    }
}

/// A build of another commit is not touched by a request.
proof fn lemma_other_build(b: RepoBuild, pre: Seq<PocketEntry>, e: PocketEntry)
    requires
        build_fits(b, pre),
        b.commit@ != e.commit@,
    ensures
        build_fits(b, pre.push(e)),
{
    let c = b.commit@;
    lemma_push_sets(pre, e, c, c);
    assert forall|j: int| 0 <= j < b.suites@.len() implies pocket_views(
        (#[trigger] b.suites@[j]).pockets@,
    ).to_set() == pockets_of(pre.push(e), c, b.suites@[j].suite.0@) by {
        lemma_push_sets(pre, e, c, b.suites@[j].suite.0@);
    }
}

/// Where suite `id` stands in `v`.
fn find_suite_pockets(v: &Vec<SuitePockets>, id: &str) -> (r: Option<usize>)
    ensures
        match r {
            Some(k) => k < v@.len() && v@[k as int].suite.0@ == id@,
            None => !suite_ids(v@).contains(id@),
        },
{
    let mut i: usize = 0;
    while i < v.len()
        invariant
            i <= v@.len(),
            forall|j: int| 0 <= j < i ==> v@[j].suite.0@ != id@,
        decreases v@.len() - i,
    {
        if str_eq(v[i].suite.id(), id) {
            return Some(i);
        }
        i = i + 1;
    }
    assert forall|j: int| 0 <= j < suite_ids(v@).len() implies suite_ids(v@)[j] != id@ by {
        assert(suite_ids(v@)[j] == v@[j].suite.0@);
    }
    None
}

/// Adds one request for the build's own commit.
fn add_to_build(b: &mut RepoBuild, e: &PocketEntry, Ghost(pre): Ghost<Seq<PocketEntry>>)
    requires
        build_fits(*old(b), pre),
        old(b).commit@ == e.commit@,
    ensures
        build_fits(*final(b), pre.push(*e)),
        final(b).commit@ == old(b).commit@,
{
    let ghost c = b.commit@;
    let ghost post = pre.push(*e);
    proof {
        lemma_push_sets(pre, *e, c, e.suite.0@);
    }
    add_branch(&mut b.branches, &e.branch);
    let ghost old_suites = b.suites@;
    match find_suite_pockets(&b.suites, e.suite.id()) {
        None => {
            let mut ps: Vec<Pocket> = Vec::new();
            ps.push(Pocket::new(e.pocket.id()));
            assert(pocket_views(ps@) =~= seq![e.pocket@]);
            assert(pockets_of(pre, c, e.suite.0@) =~= Set::<Seq<char>>::empty()) by {
                assert forall|x: Seq<char>| !pockets_of(pre, c, e.suite.0@).contains(x) by {
                    if pockets_of(pre, c, e.suite.0@).contains(x) {
                        let k = choose|k: int|
                            0 <= k < pre.len() && pre[k].commit@ == c && pre[k].suite.0@ == e.suite.0@
                                && pre[k].pocket@ == x;
                        assert(suites_of(pre, c).contains(e.suite.0@));
                        assert(suite_ids(old_suites).to_set().contains(e.suite.0@));
                    }
                }
            }
            assert(seq![e.pocket@].to_set() =~= Set::<Seq<char>>::empty().insert(e.pocket@)) by {
                broadcast use vstd::seq_lib::group_seq_properties;
            }
            assert(seq![e.pocket@].no_duplicates()) by {
                broadcast use vstd::seq_lib::group_seq_properties;
            }
            b.suites.push(SuitePockets { suite: e.suite, pockets: ps });
            assert(suite_ids(b.suites@) =~= suite_ids(old_suites).push(e.suite.0@));
            assert(suite_ids(old_suites).push(e.suite.0@).to_set() =~= suite_ids(old_suites).to_set().insert(
                e.suite.0@,
            )) by {
                broadcast use vstd::seq_lib::group_seq_properties;
            }
            assert(suite_ids(old_suites).push(e.suite.0@).no_duplicates()) by {
                broadcast use vstd::seq_lib::group_seq_properties;
            }
            assert forall|j: int| 0 <= j < b.suites@.len() implies {
                &&& pocket_views((#[trigger] b.suites@[j]).pockets@).no_duplicates()
                &&& pocket_views(b.suites@[j].pockets@).to_set() == pockets_of(post, c, b.suites@[j].suite.0@)
            } by {
                lemma_push_sets(pre, *e, c, b.suites@[j].suite.0@);
                if j < old_suites.len() {
                    assert(b.suites@[j] == old_suites[j]);
                    assert(suite_ids(old_suites)[j] == old_suites[j].suite.0@);
                }
            }
        },
        Some(k) => {
            add_pocket(&mut b.suites[k].pockets, e.pocket.id());
            assert(suite_ids(b.suites@) =~= suite_ids(old_suites));
            assert forall|j: int| 0 <= j < b.suites@.len() implies {
                &&& pocket_views((#[trigger] b.suites@[j]).pockets@).no_duplicates()
                &&& pocket_views(b.suites@[j].pockets@).to_set() == pockets_of(post, c, b.suites@[j].suite.0@)
            } by {
                lemma_push_sets(pre, *e, c, b.suites@[j].suite.0@);
                if j != k {
                    assert(b.suites@[j] == old_suites[j]);
                    assert(suite_ids(old_suites)[j] == old_suites[j].suite.0@);
                    assert(suite_ids(old_suites)[k as int] == old_suites[k as int].suite.0@);
                }
            }
            assert(suites_of(pre, c).contains(e.suite.0@)) by {
                assert(suite_ids(old_suites)[k as int] == e.suite.0@);
            }
            assert(suites_of(pre, c).insert(e.suite.0@) =~= suites_of(pre, c));
        },
    }
}

/// Where the build of commit `id` stands in `v`.
fn find_build(v: &Vec<RepoBuild>, id: &str) -> (r: Option<usize>)
    ensures
        match r {
            Some(k) => k < v@.len() && v@[k as int].commit@ == id@,
            None => !build_ids(v@).contains(id@),
        },
{
    let mut i: usize = 0;
    while i < v.len()
        invariant
            i <= v@.len(),
            forall|j: int| 0 <= j < i ==> v@[j].commit@ != id@,
        decreases v@.len() - i,
    {
        if str_eq(v[i].commit.id(), id) {
            return Some(i);
        }
        i = i + 1;
    }
    assert forall|j: int| 0 <= j < build_ids(v@).len() implies build_ids(v@)[j] != id@ by {
        assert(build_ids(v@)[j] == v@[j].commit@);
    }
    None
}

/// The build of each commit that the requests `entries` name: the branches
/// pointing at it and, per suite, the pockets that want it.
pub fn repo_builds(entries: &Vec<PocketEntry>) -> (r: Vec<RepoBuild>)
    ensures
        builds_fit(r@, entries@),
{
    let mut bs: Vec<RepoBuild> = Vec::new();
    let mut i: usize = 0;
    assert(entries@.subrange(0, 0) =~= Seq::<PocketEntry>::empty());
    assert(build_ids(bs@) =~= Seq::<Seq<char>>::empty());
    assert(commits_of(Seq::<PocketEntry>::empty()) =~= Set::<Seq<char>>::empty());
    assert(build_ids(bs@).to_set() =~= Set::<Seq<char>>::empty());
    while i < entries.len()
        invariant
            i <= entries@.len(),
            builds_fit(bs@, entries@.subrange(0, i as int)),
        decreases entries@.len() - i,
    {
        let e = &entries[i];
        let ghost pre = entries@.subrange(0, i as int);
        let ghost post = pre.push(*e);
        assert(entries@.subrange(0, i + 1) =~= post);
        let ghost old_bs = bs@;
        proof {
            lemma_push_sets(pre, *e, e.commit@, e.suite.0@);
        }
        match find_build(&bs, e.commit.id()) {
            None => {
                let mut b = RepoBuild {
                    commit: GitCommit::new(e.commit.id()),
                    branches: Vec::new(),
                    suites: Vec::new(),
                };
                let ghost c = e.commit@;
                assert(branches_of(pre, c) =~= Set::<Seq<char>>::empty()) by {
                    assert forall|x: Seq<char>| !branches_of(pre, c).contains(x) by {
                        if branches_of(pre, c).contains(x) {
                            let k = choose|k: int| 0 <= k < pre.len() && pre[k].commit@ == c && pre[k].branch@ == x;
                            assert(commits_of(pre).contains(c));
                            assert(build_ids(old_bs).to_set().contains(c));
                        }
                    }
                }
                assert(suites_of(pre, c) =~= Set::<Seq<char>>::empty()) by {
                    assert forall|x: Seq<char>| !suites_of(pre, c).contains(x) by {
                        if suites_of(pre, c).contains(x) {
                            let k = choose|k: int| 0 <= k < pre.len() && pre[k].commit@ == c && pre[k].suite.0@ == x;
                            assert(commits_of(pre).contains(c));
                            assert(build_ids(old_bs).to_set().contains(c));
                        }
                    }
                }
                assert(branch_views(b.branches@) =~= Seq::<Seq<char>>::empty());
                assert(suite_ids(b.suites@) =~= Seq::<Seq<char>>::empty());
                assert(Seq::<Seq<char>>::empty().to_set() =~= Set::<Seq<char>>::empty()) by {
                    broadcast use vstd::seq_lib::group_seq_properties;
                }
                add_to_build(&mut b, e, Ghost(pre));
                bs.push(b);
                assert(build_ids(bs@) =~= build_ids(old_bs).push(c));
                assert(build_ids(old_bs).push(c).to_set() =~= build_ids(old_bs).to_set().insert(c)) by {
                    broadcast use vstd::seq_lib::group_seq_properties;
                }
                assert(build_ids(old_bs).push(c).no_duplicates()) by {
                    broadcast use vstd::seq_lib::group_seq_properties;
                }
                assert forall|j: int| 0 <= j < bs@.len() implies build_fits(#[trigger] bs@[j], post) by {
                    if j < old_bs.len() {
                        assert(bs@[j] == old_bs[j]);
                        assert(build_ids(old_bs)[j] == old_bs[j].commit@);
                        lemma_other_build(old_bs[j], pre, *e);
                    }
                }
            },
            Some(k) => {
                add_to_build(&mut bs[k], e, Ghost(pre));
                assert(build_ids(bs@) =~= build_ids(old_bs));
                assert(commits_of(pre).contains(e.commit@)) by {
                    assert(build_ids(old_bs)[k as int] == e.commit@);
                }
                assert(commits_of(post) =~= commits_of(pre));
                assert forall|j: int| 0 <= j < bs@.len() implies build_fits(#[trigger] bs@[j], post) by {
                    if j != k {
                        assert(bs@[j] == old_bs[j]);
                        assert(build_ids(old_bs)[j] == old_bs[j].commit@);
                        assert(build_ids(old_bs)[k as int] == old_bs[k as int].commit@);
                        lemma_other_build(old_bs[j], pre, *e);
                    }
                }
            },
        }
        i = i + 1;
    }
    assert(entries@.subrange(0, entries@.len() as int) =~= entries@);
    bs
}

} // verus!
