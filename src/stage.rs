//! Decisions of the source and binary stages: retry keys, log names, the
//! derived version, the changelog rewrite, which architectures a `.dsc`
//! asks for, and how built files are sorted into a package.

use vstd::prelude::*;
use crate::git::GitCommit;
use crate::repo::{Arch, NamedPath, Package, Pocket, Suite, arch_is_arm, builds_all, builds_linux_any};
use crate::text::{
    cat, cat3, ends_with, is_prefix, is_suffix, lines, lines_of, split_at_char, split_on, starts_with,
    str_eq, views,
};
use crate::cache::{contains_name, join};
use crate::plan::{push_step, run, Step, StepV, steps_view};

verus! {

/// The retry keys that select a source build: the repository, `git:<commit>`,
/// `dist:<suite>`, and `pocket:<p>` for each pocket that wants it.
pub open spec fn source_keys(
    repo: Seq<char>,
    commit: Seq<char>,
    suite: Seq<char>,
    pockets: Seq<Seq<char>>,
) -> Seq<Seq<char>> {
    seq![repo, "git:"@ + commit, "dist:"@ + suite] + pockets.map_values(
        |p: Seq<char>| "pocket:"@ + p,
    )
}

/// Some key of `keys` was asked for in `retry`.
pub open spec fn any_requested(retry: Seq<Seq<char>>, keys: Seq<Seq<char>>) -> bool {
    exists|i: int| 0 <= i < keys.len() && retry.contains(keys[i])
}

pub open spec fn pocket_ids(v: Seq<Pocket>) -> Seq<Seq<char>> {
    v.map_values(|p: Pocket| p@)
}

/// The retry keys of a source build, as [`source_keys`] lists them.
pub fn source_retry_keys(repo: &str, commit: &GitCommit, suite: &Suite, pockets: &Vec<Pocket>) -> (r: Vec<
    String,
>)
    ensures
        views(r@) == source_keys(repo@, commit@, suite.0@, pocket_ids(pockets@)),
{
    let mut keys: Vec<String> = vec![
        repo.to_owned(),
        cat("git:", commit.id()),
        cat("dist:", suite.id()),
    ];
    let ghost head = seq![repo@, "git:"@ + commit@, "dist:"@ + suite.0@];
    assert(views(keys@) =~= head);
    let mut i: usize = 0;
    while i < pockets.len()
        invariant
            i <= pockets@.len(),
            views(keys@) == head + pocket_ids(pockets@).subrange(0, i as int).map_values(
                |p: Seq<char>| "pocket:"@ + p,
            ),
        decreases pockets@.len() - i,
    {
        let k = cat("pocket:", pockets[i].id());
        let ghost old_keys = keys@;
        keys.push(k);
        assert(views(keys@) =~= views(old_keys).push(k@));
        assert(pocket_ids(pockets@).subrange(0, i + 1) =~= pocket_ids(pockets@).subrange(0, i as int).push(
            pockets@[i as int]@,
        ));
        assert(pocket_ids(pockets@).subrange(0, i + 1).map_values(|p: Seq<char>| "pocket:"@ + p)
            =~= pocket_ids(pockets@).subrange(0, i as int).map_values(|p: Seq<char>| "pocket:"@ + p).push(
            "pocket:"@ + pockets@[i as int]@,
        ));
        i = i + 1;
    }
    assert(pocket_ids(pockets@).subrange(0, pockets@.len() as int) =~= pocket_ids(pockets@));
    keys
}

/// Whether any of `keys` was asked for in `retry`.
pub fn requested(retry: &Vec<String>, keys: &Vec<String>) -> (r: bool)
    ensures
        r == any_requested(views(retry@), views(keys@)),
{
    let mut i: usize = 0;
    while i < keys.len()
        invariant
            i <= keys@.len(),
            forall|j: int| 0 <= j < i ==> !views(retry@).contains(#[trigger] views(keys@)[j]),
        decreases keys@.len() - i,
    {
        if contains_name(retry, keys[i].as_str()) {
            assert(views(keys@)[i as int] == keys@[i as int]@);
            return true;
        }
        assert(views(keys@)[i as int] == keys@[i as int]@);
        i = i + 1;
    }
    false
}

/// Whether the source build of (repo, commit, suite) is to be retried.
pub fn source_retry(
    retry: &Vec<String>,
    repo: &str,
    commit: &GitCommit,
    suite: &Suite,
    pockets: &Vec<Pocket>,
) -> (r: bool)
    ensures
        r == any_requested(views(retry@), source_keys(repo@, commit@, suite.0@, pocket_ids(pockets@))),
{
    let keys = source_retry_keys(repo, commit, suite, pockets);
    requested(retry, &keys)
}

/// Whether the binary build of `arch` is to be retried: when its source is,
/// or when `arch:<arch>` was asked for. An `arch:` key never selects a
/// source build.
pub fn binary_retry(retry: &Vec<String>, source_retry: bool, arch: &Arch) -> (r: bool)
    ensures
        r == (source_retry || views(retry@).contains("arch:"@ + arch@)),
{
    if source_retry {
        return true;
    }
    let key = cat("arch:", arch.id());
    contains_name(retry, key.as_str())
}

/// `<repo>_<commit>_<suite>_<step>.log`.
pub open spec fn log_name_of(repo: Seq<char>, commit: Seq<char>, suite: Seq<char>, step: Seq<char>) -> Seq<
    char,
> {
    repo + "_"@ + commit + "_"@ + suite + "_"@ + step + ".log"@
}

/// The name of the log of one step (`source`, or an architecture) of the
/// build of (repo, commit, suite).
pub fn log_name(repo: &str, commit: &GitCommit, suite: &Suite, step: &str) -> (r: String)
    ensures
        r@ == log_name_of(repo@, commit@, suite.0@, step@),
{
    let mut s = repo.to_owned();
    s.append("_");
    s.append(commit.id());
    s.append("_");
    s.append(suite.id());
    s.append("_");
    s.append(step);
    s.append(".log");
    s
}

/// A step whose log is kept from an earlier failure is skipped unless it is
/// retried.
pub open spec fn skips(log_exists: bool, retry: bool) -> bool {
    log_exists && !retry
}

/// Whether a step is skipped because it failed before and is not retried.
pub fn already_failed(log_exists: bool, retry: bool) -> (r: bool)
    ensures
        r == skips(log_exists, retry),
{
    log_exists && !retry
}

/// The version of an automatic build:
/// `<version>~<timestamp>~<suite version>~<first 7 of commit>[~dev]`.
pub open spec fn derived_version_of(
    version: Seq<char>,
    timestamp: Seq<char>,
    suite_version: Seq<char>,
    commit: Seq<char>,
    dev: bool,
) -> Seq<char> {
    version + "~"@ + timestamp + "~"@ + suite_version + "~"@ + commit.subrange(0, 7) + (if dev {
        "~dev"@
    } else {
        Seq::<char>::empty()
    })
}

/// The derived version of a build of `commit` for `suite`.
pub fn derived_version(version: &str, timestamp: &str, suite: &Suite, commit: &GitCommit, dev: bool) -> (r:
    String)
    requires
        commit@.len() >= 7,
    ensures
        r@ == derived_version_of(version@, timestamp@, suite.1@, commit@, dev),
{
    let mut s = version.to_owned();
    s.append("~");
    s.append(timestamp);
    s.append("~");
    s.append(suite.version());
    s.append("~");
    s.append(commit.id().substring_char(0, 7));
    if dev {
        s.append("~dev");
    } else {
        assert(s@ + Seq::<char>::empty() =~= s@);
    }
    s
}

/// Where the changelog of a repository lies in its tree.
pub fn changelog_path(repo: &str) -> (r: &'static str)
    ensures
        r@ == (if repo@ == "linux"@ {
            "debian.master/changelog"@
        } else {
            "debian/changelog"@
        }),
{
    if str_eq(repo, "linux") {
        "debian.master/changelog"
    } else {
        "debian/changelog"
    }
}

/// The new first entry header: `<source> (<version>) <suite>; urgency=medium`,
/// a blank line and `  * Auto Build`, each line ended.
pub open spec fn header_block(source: Seq<char>, version: Seq<char>, suite: Seq<char>) -> Seq<char> {
    source + " ("@ + version + ") "@ + suite + "; urgency=medium\n"@ + "\n"@ + "  * Auto Build\n"@
}

/// The new first footer: ` -- <name> <<email>>  <date>`, ended.
pub open spec fn footer_line(name: Seq<char>, email: Seq<char>, date: Seq<char>) -> Seq<char> {
    " -- "@ + name + " <"@ + email + ">  "@ + date + "\n"@
}

/// The rewritten text of `lines`, and whether the header and the footer were
/// replaced yet: the first line that starts with `source` gives way to
/// `header`, the first that starts with ` -- ` to `footer`, and every other
/// line is kept.
pub open spec fn rewrite(lines: Seq<Seq<char>>, source: Seq<char>, header: Seq<char>, footer: Seq<char>) -> (
    Seq<char>,
    bool,
    bool,
)
    decreases lines.len(),
{
    if lines.len() == 0 {
        (Seq::empty(), false, false)
    } else {
        let (out, h, f) = rewrite(lines.drop_last(), source, header, footer);
        let line = lines.last();
        if !h && is_prefix(source, line) {
            (out + header, true, f)
        } else if !f && is_prefix(" -- "@, line) {
            (out + footer, h, true)
        } else {
            (out + line + "\n"@, h, f)
        }
    }
}

/// The changelog `text` with its first entry's header and footer rewritten
/// for an automatic build.
pub fn rewrite_changelog(
    text: &str,
    source: &str,
    version: &str,
    suite: &Suite,
    name: &str,
    email: &str,
    date: &str,
) -> (r: String)
    ensures
        r@ == rewrite(
            lines_of(text@),
            source@,
            header_block(source@, version@, suite.0@),
            footer_line(name@, email@, date@),
        ).0,
{
    let mut header = source.to_owned();
    header.append(" (");
    header.append(version);
    header.append(") ");
    header.append(suite.id());
    header.append("; urgency=medium\n");
    header.append("\n");
    header.append("  * Auto Build\n");
    let mut footer = " -- ".to_owned();
    footer.append(name);
    footer.append(" <");
    footer.append(email);
    footer.append(">  ");
    footer.append(date);
    footer.append("\n");
    let ls = lines(text);
    let mut out = String::new();
    let mut replaced_header = false;
    let mut replaced_footer = false;
    let mut i: usize = 0;
    assert(views(ls@).subrange(0, 0) =~= Seq::<Seq<char>>::empty());
    while i < ls.len()
        invariant
            i <= ls@.len(),
            views(ls@) == lines_of(text@),
            header@ == header_block(source@, version@, suite.0@),
            footer@ == footer_line(name@, email@, date@),
            rewrite(views(ls@).subrange(0, i as int), source@, header@, footer@) == (
                out@,
                replaced_header,
                replaced_footer,
            ),
        decreases ls@.len() - i,
    {
        let ghost upto = views(ls@).subrange(0, i + 1);
        assert(upto.drop_last() =~= views(ls@).subrange(0, i as int));
        assert(upto.last() == ls@[i as int]@);
        let line = ls[i].as_str();
        if !replaced_header && starts_with(line, source) {
            out.append(header.as_str());
            replaced_header = true;
        } else if !replaced_footer && starts_with(line, " -- ") {
            out.append(footer.as_str());
            replaced_footer = true;
        } else {
            out.append(line);
            out.append("\n");
        }
        i = i + 1;
    }
    assert(views(ls@).subrange(0, ls@.len() as int) =~= views(ls@));
    out
}

/// A word of an `Architecture:` field admits `arch`: the literal name, `any`,
/// `all` on the architecture that builds it, `linux-any` on the Linux ones,
/// or `linux-<arch>`.
pub open spec fn word_admits(word: Seq<char>, arch: Seq<char>) -> bool {
    ||| word == arch
    ||| word == "any"@
    ||| (word == "all"@ && builds_all(arch))
    ||| (word == "linux-any"@ && builds_linux_any(arch))
    ||| word == "linux-"@ + arch
}

/// Some space-separated word of `line` admits `arch`.
pub open spec fn line_admits(line: Seq<char>, arch: Seq<char>) -> bool {
    exists|i: int| 0 <= i < split_on(line, ' ').len() && word_admits(split_on(line, ' ')[i], arch)
}

/// The architectures of `archs` that an `Architecture:` line asks for; ARM
/// ones only where an ARM builder is configured.
pub open spec fn archs_of_line(line: Seq<char>, archs: Seq<Arch>, arm_builder: bool) -> Seq<Arch> {
    archs.filter(|a: Arch| (arm_builder || !arch_is_arm(a@)) && line_admits(line, a@))
}

/// The architectures to build for a `.dsc` whose lines are `lines`, in the
/// order of its `Architecture: ` lines and of `archs`.
pub open spec fn dsc_archs_of(lines: Seq<Seq<char>>, archs: Seq<Arch>, arm_builder: bool) -> Seq<Arch>
    decreases lines.len(),
{
    if lines.len() == 0 {
        Seq::empty()
    } else {
        let before = dsc_archs_of(lines.drop_last(), archs, arm_builder);
        if is_prefix("Architecture: "@, lines.last()) {
            before + archs_of_line(lines.last(), archs, arm_builder)
        } else {
            before
        }
    }
}

/// Whether a word of `words` admits `arch`.
fn words_admit(words: &Vec<String>, arch: &Arch) -> (r: bool)
    ensures
        r == exists|i: int| 0 <= i < words@.len() && word_admits(words@[i]@, arch@),
{
    let linux_arch = cat("linux-", arch.id());
    let mut i: usize = 0;
    while i < words.len()
        invariant
            i <= words@.len(),
            linux_arch@ == "linux-"@ + arch@,
            forall|j: int| 0 <= j < i ==> !word_admits(words@[j]@, arch@),
        decreases words@.len() - i,
    {
        let w = words[i].as_str();
        assert(w@ == words@[i as int]@);
        let h1 = str_eq(w, arch.id());
        let h2 = str_eq(w, "any");
        let h3 = str_eq(w, "all") && arch.build_all();
        let h4 = str_eq(w, "linux-any") && arch.build_linux_any();
        let h5 = str_eq(w, linux_arch.as_str());
        let hit = h1 || h2 || h3 || h4 || h5;
        assert(hit == word_admits(words@[i as int]@, arch@));
        if hit {
            return true;
        }
        i = i + 1;
    }
    false
}

/// The architectures to build for the `.dsc` text `dsc`: for each line that
/// starts with `Architecture: `, each architecture of `archs` that a word of
/// the line admits, leaving out ARM ones without an ARM builder.
pub fn dsc_archs(dsc: &str, archs: &Vec<Arch>, arm_builder: bool) -> (r: Vec<Arch>)
    ensures
        r@ == dsc_archs_of(lines_of(dsc@), archs@, arm_builder),
{
    let ls = lines(dsc);
    let mut out: Vec<Arch> = Vec::new();
    let mut i: usize = 0;
    assert(views(ls@).subrange(0, 0) =~= Seq::<Seq<char>>::empty());
    while i < ls.len()
        invariant
            i <= ls@.len(),
            views(ls@) == lines_of(dsc@),
            out@ == dsc_archs_of(views(ls@).subrange(0, i as int), archs@, arm_builder),
        decreases ls@.len() - i,
    {
        let ghost upto = views(ls@).subrange(0, i + 1);
        assert(upto.drop_last() =~= views(ls@).subrange(0, i as int));
        assert(upto.last() == ls@[i as int]@);
        let line = ls[i].as_str();
        if starts_with(line, "Architecture: ") {
            let words = split_at_char(line, ' ');
            let ghost base = out@;
            let mut j: usize = 0;
            proof {
                reveal(Seq::filter);
                assert(archs@.subrange(0, 0) =~= Seq::<Arch>::empty());
                assert(out@ =~= base + archs_of_line(line@, archs@.subrange(0, 0), arm_builder));
            }
            while j < archs.len()
                invariant
                    j <= archs@.len(),
                    views(words@) == split_on(line@, ' '),
                    out@ == base + archs_of_line(line@, archs@.subrange(0, j as int), arm_builder),
                decreases archs@.len() - j,
            {
                let a = archs[j];
                let ghost sub = archs@.subrange(0, j + 1);
                assert(sub.drop_last() =~= archs@.subrange(0, j as int));
                assert(sub.last() == a);
                proof {
                    reveal(Seq::filter);
                }
                let wanted = (arm_builder || !a.is_arm()) && words_admit(&words, &a);
                proof {
                    assert((exists|w: int| 0 <= w < words@.len() && word_admits(words@[w]@, a@))
                        == line_admits(line@, a@)) by {
                        if exists|w: int| 0 <= w < words@.len() && word_admits(words@[w]@, a@) {
                            let w = choose|w: int| 0 <= w < words@.len() && word_admits(words@[w]@, a@);
                            assert(split_on(line@, ' ')[w] == words@[w]@);
                        }
                        if line_admits(line@, a@) {
                            let w = choose|w: int|
                                0 <= w < split_on(line@, ' ').len() && word_admits(split_on(line@, ' ')[w], a@);
                            assert(split_on(line@, ' ')[w] == words@[w]@);
                        }
                    }
                }
                if wanted {
                    out.push(a);
                }
                j = j + 1;
            }
            assert(archs@.subrange(0, archs@.len() as int) =~= archs@);
        }
        i = i + 1;
    }
    assert(views(ls@).subrange(0, ls@.len() as int) =~= views(ls@));
    out
}

/// The files of `files` whose name ends with `suffix`, in order.
pub open spec fn with_suffix_of(files: Seq<NamedPath>, suffix: Seq<char>) -> Seq<NamedPath> {
    files.filter(|f: NamedPath| is_suffix(suffix, f.name@))
}

/// A copy of `f`.
pub fn copy_named(f: &NamedPath) -> (r: NamedPath)
    ensures
        r == *f,
{
    NamedPath { name: f.name.clone(), path: f.path.clone() }
}

/// The names of `files`.
pub open spec fn names_of(files: Seq<NamedPath>) -> Seq<Seq<char>> {
    files.map_values(|f: NamedPath| f.name@)
}

/// The files of `files` whose name ends with `suffix`, in order; distinct
/// names stay distinct.
pub fn with_suffix(files: &Vec<NamedPath>, suffix: &str) -> (r: Vec<NamedPath>)
    ensures
        r@ == with_suffix_of(files@, suffix@),
        names_of(files@).no_duplicates() ==> names_of(r@).no_duplicates(),
{
    let mut out: Vec<NamedPath> = Vec::new();
    let mut i: usize = 0;
    proof {
        reveal(Seq::filter);
        assert(files@.subrange(0, 0) =~= Seq::<NamedPath>::empty());
        assert(names_of(out@) =~= Seq::<Seq<char>>::empty());
    }
    while i < files.len()
        invariant
            i <= files@.len(),
            out@ == with_suffix_of(files@.subrange(0, i as int), suffix@),
            forall|k: int| 0 <= k < out@.len() ==> exists|m: int| 0 <= m < i && #[trigger] out@[k] == files@[m],
            names_of(files@).no_duplicates() ==> names_of(out@).no_duplicates(),
        decreases files@.len() - i,
    {
        let ghost sub = files@.subrange(0, i + 1);
        assert(sub.drop_last() =~= files@.subrange(0, i as int));
        assert(sub.last() == files@[i as int]);
        proof {
            reveal(Seq::filter);
        }
        if ends_with(files[i].name.as_str(), suffix) {
            let ghost before = out@;
            out.push(copy_named(&files[i]));
            assert(names_of(out@) =~= names_of(before).push(files@[i as int].name@));
            assert forall|k: int| 0 <= k < out@.len() implies exists|m: int|
                0 <= m < i + 1 && #[trigger] out@[k] == files@[m] by {
                if k < before.len() {
                    assert(out@[k] == before[k]);
                } else {
                    assert(out@[k] == files@[i as int]);
                }
            }
            proof {
                if names_of(files@).no_duplicates() {
                    assert(!names_of(before).contains(files@[i as int].name@)) by {
                        if names_of(before).contains(files@[i as int].name@) {
                            let k = choose|k: int| 0 <= k < names_of(before).len() && names_of(before)[k]
                                == files@[i as int].name@;
                            let m = choose|m: int| 0 <= m < i && before[k] == files@[m];
                            assert(names_of(files@)[m] == names_of(files@)[i as int]);
                        }
                    }
                    assert(names_of(before).push(files@[i as int].name@).no_duplicates()) by {
                        broadcast use vstd::seq_lib::group_seq_properties;
                    }
                }
            }
        }
        i = i + 1;
    }
    assert(files@.subrange(0, files@.len() as int) =~= files@);
    out
}

/// The build logs that a failed step left in its staging directory, whose
/// entries are `files`: those named `*_<step>.build`, where the step is
/// `source` or an architecture.
pub fn build_logs(files: &Vec<NamedPath>, step: &str) -> (r: Vec<NamedPath>)
    ensures
        r@ == with_suffix_of(files@, "_"@ + step@ + ".build"@),
{
    let suffix = cat3("_", step, ".build");
    with_suffix(files, suffix.as_str())
}

/// The packages that a binary build put in its directory, whose entries are
/// `files`.
pub fn deb_files(files: &Vec<NamedPath>) -> (r: Vec<NamedPath>)
    ensures
        r@ == with_suffix_of(files@, ".deb"@),
{
    with_suffix(files, ".deb")
}

/// Whether a file named `name` is in `files`.
fn has_name(files: &Vec<NamedPath>, name: &str) -> (r: bool)
    ensures
        r == names_of(files@).contains(name@),
{
    let mut i: usize = 0;
    while i < files.len()
        invariant
            i <= files@.len(),
            forall|j: int| 0 <= j < i ==> files@[j].name@ != name@,
        decreases files@.len() - i,
    {
        if str_eq(files[i].name.as_str(), name) {
            assert(names_of(files@)[i as int] == name@);
            return true;
        }
        i = i + 1;
    }
    assert forall|j: int| 0 <= j < names_of(files@).len() implies names_of(files@)[j] != name@ by {
        assert(names_of(files@)[j] == files@[j].name@);
    }
    false
}

impl Package {
    /// Each of the package's file lists names every file once.
    pub open spec fn wf(&self) -> bool {
        &&& names_of(self.changes@).no_duplicates()
        &&& names_of(self.dscs@).no_duplicates()
        &&& names_of(self.tars@).no_duplicates()
        &&& names_of(self.debs@).no_duplicates()
    }

    /// The package of a built source directory whose entries are `files`:
    /// its `.changes`, `.dsc` and `.tar.xz` files, no architectures or
    /// binaries yet, and the source stage's `rebuilt` flag. Entries of one
    /// directory have distinct names, and so do the package's files.
    pub fn from_source(rebuilt: bool, files: &Vec<NamedPath>) -> (r: Package)
        ensures
            r.rebuilt == rebuilt,
            r.changes@ == with_suffix_of(files@, ".changes"@),
            r.dscs@ == with_suffix_of(files@, ".dsc"@),
            r.tars@ == with_suffix_of(files@, ".tar.xz"@),
            r.archs@.len() == 0,
            r.debs@.len() == 0,
            names_of(files@).no_duplicates() ==> r.wf(),
    {
        let debs: Vec<NamedPath> = Vec::new();
        assert(names_of(debs@) =~= Seq::<Seq<char>>::empty());
        Package {
            rebuilt,
            changes: with_suffix(files, ".changes"),
            dscs: with_suffix(files, ".dsc"),
            tars: with_suffix(files, ".tar.xz"),
            archs: Vec::new(),
            debs,
        }
    }

    /// Whether the source stage produced exactly one `.changes` and one
    /// `.dsc`; otherwise the suite is skipped.
    pub fn source_complete(&self) -> (r: bool)
        ensures
            r == (self.changes@.len() == 1 && self.dscs@.len() == 1),
    {
        self.changes.len() == 1 && self.dscs.len() == 1
    }

    /// Takes in the result of one architecture's build: its packages join
    /// the package, and the package is rebuilt when that build was. A
    /// package name met twice is refused and nothing changes; the caller
    /// treats that as a broken invariant.
    pub fn add_binary(&mut self, rebuilt: bool, debs: &Vec<NamedPath>) -> (r: bool)
        requires
            old(self).wf(),
        ensures
            final(self).wf(),
            r == names_of(old(self).debs@ + debs@).no_duplicates(),
            r ==> final(self).rebuilt == (old(self).rebuilt || rebuilt),
            r ==> final(self).debs@ == old(self).debs@ + debs@,
            !r ==> *final(self) == *old(self),
            final(self).changes == old(self).changes,
            final(self).dscs == old(self).dscs,
            final(self).tars == old(self).tars,
            final(self).archs == old(self).archs,
    {
        let mut merged: Vec<NamedPath> = Vec::new();
        let mut i: usize = 0;
        while i < self.debs.len()
            invariant
                i <= self.debs@.len(),
                merged@ == self.debs@.subrange(0, i as int),
            decreases self.debs@.len() - i,
        {
            merged.push(copy_named(&self.debs[i]));
            assert(self.debs@.subrange(0, i + 1) =~= self.debs@.subrange(0, i as int).push(self.debs@[i as int]));
            i = i + 1;
        }
        assert(self.debs@.subrange(0, self.debs@.len() as int) =~= self.debs@);
        let ghost all = self.debs@ + debs@;
        let ghost n0 = self.debs@.len();
        let mut j: usize = 0;
        assert(debs@.subrange(0, 0) =~= Seq::<NamedPath>::empty());
        assert(merged@ =~= self.debs@ + debs@.subrange(0, 0));
        while j < debs.len()
            invariant
                j <= debs@.len(),
                merged@ == self.debs@ + debs@.subrange(0, j as int),
                names_of(merged@).no_duplicates(),
                self.wf(),
                *self == *old(self),
                all == self.debs@ + debs@,
                n0 == self.debs@.len(),
            decreases debs@.len() - j,
        {
            if has_name(&merged, debs[j].name.as_str()) {
                proof {
                    let k = choose|k: int| 0 <= k < names_of(merged@).len() && names_of(merged@)[k] == debs@[j as int].name@;
                    assert(names_of(all)[k] == names_of(merged@)[k]);
                    assert(names_of(all)[n0 + j] == debs@[j as int].name@);
                    assert(!names_of(all).no_duplicates());
                }
                return false;
            }
            let ghost before = merged@;
            merged.push(copy_named(&debs[j]));
            assert(debs@.subrange(0, j + 1) =~= debs@.subrange(0, j as int).push(debs@[j as int]));
            assert(merged@ =~= self.debs@ + debs@.subrange(0, j + 1));
            assert(names_of(merged@) =~= names_of(before).push(debs@[j as int].name@));
            assert(names_of(before).push(debs@[j as int].name@).no_duplicates()) by {
                broadcast use vstd::seq_lib::group_seq_properties;
            }
            j = j + 1;
        }
        assert(debs@.subrange(0, debs@.len() as int) =~= debs@);
        assert(merged@ == all);
        self.debs = merged;
        if rebuilt {
            self.rebuilt = true;
        }
        true
    }
}

/// The start of a source build in the staging directory `dir`: the
/// directory, and the commit archive `archive_tar` unpacked into
/// `dir/archive`.
pub open spec fn extract_steps_of(dir: Seq<char>, archive_tar: Seq<char>) -> Seq<StepV> {
    seq![
        StepV::MakeDir(dir),
        StepV::MakeDir(join(dir, "archive"@)),
        StepV::Run("tar"@, seq!["--extract"@, "-f"@, archive_tar, "-C"@, join(dir, "archive"@)], None, None),
    ]
}

/// The start of a source build in `dir`.
pub fn extract_steps(dir: &str, archive_tar: &str) -> (r: Vec<Step>)
    ensures
        steps_view(r@) == extract_steps_of(dir@, archive_tar@),
{
    let archive = cat3(dir, "/", "archive");
    let mut plan: Vec<Step> = Vec::new();
    push_step(&mut plan, Step::MakeDir(dir.to_owned()));
    push_step(&mut plan, Step::MakeDir(archive.clone()));
    let args = vec!["--extract".to_owned(), "-f".to_owned(), archive_tar.to_owned(), "-C".to_owned(), archive];
    assert(views(args@) =~= seq!["--extract"@, "-f"@, archive_tar@, "-C"@, join(dir@, "archive"@)]);
    push_step(&mut plan, run("tar", args, None, None));
    assert(steps_view(plan@) =~= extract_steps_of(dir@, archive_tar@));
    plan
}

/// The arguments of the source-only package build.
pub open spec fn debuild_args_of(timestamp: Seq<char>, commit: Seq<char>) -> Seq<Seq<char>> {
    seq![
        "--preserve-envvar"@,
        "PATH"@,
        "--set-envvar"@,
        "SOURCE_DATE_EPOCH="@ + timestamp,
        "--set-envvar"@,
        "SOURCE_GIT_HASH="@ + commit,
        "--no-lintian"@,
        "--no-tgz-check"@,
        "-d"@,
        "-S"@,
        "--compression-level=fast"@,
    ]
}

/// The end of a source build in the unpacked tree `archive`, once its
/// changelog is rewritten: the patch series applied when there is one, the
/// tree cleaned for the `linux` repository, then the source-only build.
pub open spec fn finish_steps_of(
    repo: Seq<char>,
    archive: Seq<char>,
    has_series: bool,
    timestamp: Seq<char>,
    commit: Seq<char>,
) -> Seq<StepV> {
    let quilt = if has_series {
        seq![StepV::Run("env"@, seq!["QUILT_PATCHES=debian/patches"@, "quilt"@, "push"@, "-a"@], Some(archive), None)]
    } else {
        Seq::empty()
    };
    let clean = if repo == "linux"@ {
        seq![StepV::Run("fakeroot"@, seq!["debian/rules"@, "clean"@], Some(archive), None)]
    } else {
        Seq::empty()
    };
    quilt + clean + seq![StepV::Run("debuild"@, debuild_args_of(timestamp, commit), Some(archive), None)]
}

/// The end of a source build in the unpacked tree `archive`.
pub fn finish_steps(repo: &str, archive: &str, has_series: bool, timestamp: &str, commit: &GitCommit) -> (r: Vec<
    Step,
>)
    ensures
        steps_view(r@) == finish_steps_of(repo@, archive@, has_series, timestamp@, commit@),
{
    let mut plan: Vec<Step> = Vec::new();
    if has_series {
        let args = vec!["QUILT_PATCHES=debian/patches".to_owned(), "quilt".to_owned(), "push".to_owned(), "-a".to_owned()];
        assert(views(args@) =~= seq!["QUILT_PATCHES=debian/patches"@, "quilt"@, "push"@, "-a"@]);
        push_step(&mut plan, run("env", args, Some(archive.to_owned()), None));
    }
    if str_eq(repo, "linux") {
        let args = vec!["debian/rules".to_owned(), "clean".to_owned()];
        assert(views(args@) =~= seq!["debian/rules"@, "clean"@]);
        push_step(&mut plan, run("fakeroot", args, Some(archive.to_owned()), None));
    }
    let args = vec![
        "--preserve-envvar".to_owned(),
        "PATH".to_owned(),
        "--set-envvar".to_owned(),
        cat("SOURCE_DATE_EPOCH=", timestamp),
        "--set-envvar".to_owned(),
        cat("SOURCE_GIT_HASH=", commit.id()),
        "--no-lintian".to_owned(),
        "--no-tgz-check".to_owned(),
        "-d".to_owned(),
        "-S".to_owned(),
        "--compression-level=fast".to_owned(),
    ];
    assert(views(args@) =~= debuild_args_of(timestamp@, commit@));
    push_step(&mut plan, run("debuild", args, Some(archive.to_owned()), None));
    assert(steps_view(plan@) =~= finish_steps_of(repo@, archive@, has_series, timestamp@, commit@));
    plan
}

} // verus!
