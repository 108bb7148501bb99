//! The publisher: pool contents, the signed dists indices of a suite, source
//! uploads, and the two-pass publication of the archive.

use vstd::prelude::*;
use crate::cache::join;
use crate::plan::{push_step, run, Runner, Step, StepV, step_view, steps_view};
use crate::repo::{Arch, NamedPath, Package, Pocket, Suite};
use crate::text::{cat, cat3, ends_with, is_suffix, str_eq, views};

verus! {

/// The `Release` stanza of one component index of a suite in a pocket.
pub open spec fn component_release_of(suite: Suite, pocket: Seq<char>, arch: Seq<char>) -> Seq<char> {
    "Archive: "@ + suite.0@ + "\n"@ + "Version: "@ + suite.1@ + "\n"@ + "Component: main\n"@
        + "Origin: pop-os-staging-"@ + pocket + "\n"@ + "Label: Pop!_OS Staging "@ + pocket + "\n"@
        + "Architecture: "@ + arch + "\n"@
}

/// The `Release` stanza of one component index.
pub fn component_release(suite: &Suite, pocket: &Pocket, arch: &str) -> (r: String)
    ensures
        r@ == component_release_of(*suite, pocket@, arch@),
{
    let mut s = "Archive: ".to_owned();
    s.append(suite.id());
    s.append("\n");
    s.append("Version: ");
    s.append(suite.version());
    s.append("\n");
    s.append("Component: main\n");
    s.append("Origin: pop-os-staging-");
    s.append(pocket.id());
    s.append("\n");
    s.append("Label: Pop!_OS Staging ");
    s.append(pocket.id());
    s.append("\n");
    s.append("Architecture: ");
    s.append(arch);
    s.append("\n");
    s
}

/// The architecture ids of `archs`, separated by spaces.
pub open spec fn archs_field_of(archs: Seq<Arch>) -> Seq<char>
    decreases archs.len(),
{
    if archs.len() == 0 {
        Seq::empty()
    } else {
        let before = archs_field_of(archs.drop_last());
        before + (if before.len() > 0 { " "@ } else { Seq::empty() }) + archs.last()@
    }
}

/// The steps that index one architecture of a suite into `dir/main`.
pub open spec fn arch_steps(dir: Seq<char>, pocket_dir: Seq<char>, suite: Suite, pocket: Seq<char>, arch: Seq<char>) -> Seq<StepV> {
    let bin = join(join(dir, "main"@), "binary-"@ + arch);
    seq![
        StepV::MakeDir(bin),
        StepV::Run(
            "apt-ftparchive"@,
            seq!["-qq"@, "--arch"@, arch, "packages"@, "pool/"@ + suite.0@],
            Some(pocket_dir),
            Some(join(bin, "Packages"@)),
        ),
        StepV::Run("gzip"@, seq!["--keep"@, join(bin, "Packages"@)], None, None),
        StepV::WriteFile(join(bin, "Release"@), component_release_of(suite, pocket, arch)),
    ]
}

pub open spec fn all_arch_steps(dir: Seq<char>, pocket_dir: Seq<char>, suite: Suite, pocket: Seq<char>, archs: Seq<Arch>) -> Seq<StepV>
    decreases archs.len(),
{
    if archs.len() == 0 {
        Seq::empty()
    } else {
        all_arch_steps(dir, pocket_dir, suite, pocket, archs.drop_last()) + arch_steps(
            dir,
            pocket_dir,
            suite,
            pocket,
            archs.last()@,
        )
    }
}

/// The steps that create `dir` and index the sources of a suite.
pub open spec fn source_steps(dir: Seq<char>, pocket_dir: Seq<char>, suite: Suite, pocket: Seq<char>) -> Seq<StepV> {
    let src = join(join(dir, "main"@), "source"@);
    seq![
        StepV::MakeDir(dir),
        StepV::MakeDir(join(dir, "main"@)),
        StepV::MakeDir(src),
        StepV::Run(
            "apt-ftparchive"@,
            seq!["-qq"@, "sources"@, "pool/"@ + suite.0@],
            Some(pocket_dir),
            Some(join(src, "Sources"@)),
        ),
        StepV::Run("gzip"@, seq!["--keep"@, join(src, "Sources"@)], None, None),
        StepV::WriteFile(join(src, "Release"@), component_release_of(suite, pocket, "source"@)),
    ]
}

/// The options of the top-level `Release` of a suite.
pub open spec fn release_args(suite: Suite, pocket: Seq<char>, archs: Seq<char>) -> Seq<Seq<char>> {
    seq![
        "-o"@, "APT::FTPArchive::Release::Origin=pop-os-staging-"@ + pocket,
        "-o"@, "APT::FTPArchive::Release::Label=Pop!_OS Staging "@ + pocket,
        "-o"@, "APT::FTPArchive::Release::Suite="@ + suite.0@,
        "-o"@, "APT::FTPArchive::Release::Version="@ + suite.1@,
        "-o"@, "APT::FTPArchive::Release::Codename="@ + suite.0@,
        "-o"@, "APT::FTPArchive::Release::Architectures="@ + archs,
        "-o"@, "APT::FTPArchive::Release::Components=main"@,
        "-o"@, "APT::FTPArchive::Release::Description=Pop!_OS Staging "@ + suite.0@ + " "@ + suite.1@ + " "@ + pocket,
        "release"@, "."@,
    ]
}

/// The arguments of a sha512 signature of `input` into `output` by `signer`;
/// `mode` is `--clearsign` or `-abs`.
pub open spec fn sign_args(mode: Seq<char>, signer: Seq<char>, output: Seq<char>, input: Seq<char>) -> Seq<Seq<char>> {
    seq![mode, "--local-user"@, signer, "--batch"@, "--yes"@, "--digest-algo"@, "sha512"@, "-o"@, output, input]
}

/// The steps that write the top-level `Release` of `dir` and sign it twice.
pub open spec fn release_steps(dir: Seq<char>, suite: Suite, pocket: Seq<char>, archs: Seq<Arch>, signer: Seq<char>) -> Seq<StepV> {
    let release = join(dir, "Release"@);
    seq![
        StepV::Run("apt-ftparchive"@, release_args(suite, pocket, archs_field_of(archs)), Some(dir), Some(release)),
        StepV::Run("gpg"@, sign_args("--clearsign"@, signer, join(dir, "InRelease"@), release), None, None),
        StepV::Run("gpg"@, sign_args("-abs"@, signer, join(dir, "Release.gpg"@), release), None, None),
    ]
}

/// The producer of `dists/<suite>` into the staging directory `dir`, for the
/// pocket directory `pocket_dir` that holds `pool/<suite>`.
pub open spec fn dists_plan_of(
    dir: Seq<char>,
    pocket_dir: Seq<char>,
    suite: Suite,
    pocket: Seq<char>,
    archs: Seq<Arch>,
    signer: Seq<char>,
) -> Seq<StepV> {
    source_steps(dir, pocket_dir, suite, pocket) + all_arch_steps(dir, pocket_dir, suite, pocket, archs)
        + release_steps(dir, suite, pocket, archs, signer)
}

/// The architecture ids of `archs`, separated by spaces.
pub fn archs_field(archs: &Vec<Arch>) -> (r: String)
    ensures
        r@ == archs_field_of(archs@),
{
    let mut s = String::new();
    let mut i: usize = 0;
    assert(archs@.subrange(0, 0) =~= Seq::<Arch>::empty());
    while i < archs.len()
        invariant
            i <= archs@.len(),
            s@ == archs_field_of(archs@.subrange(0, i as int)),
        decreases archs@.len() - i,
    {
        let ghost sub = archs@.subrange(0, i + 1);
        assert(sub.drop_last() =~= archs@.subrange(0, i as int));
        assert(sub.last() == archs@[i as int]);
        if s.unicode_len() > 0 {
            s.append(" ");
        } else {
            assert(s@ + Seq::<char>::empty() =~= s@);
        }
        s.append(archs[i].id());
        i = i + 1;
    }
    assert(archs@.subrange(0, archs@.len() as int) =~= archs@);
    s
}

fn path2(a: &str, b: &str) -> (r: String)
    ensures
        r@ == join(a@, b@),
{
    cat3(a, "/", b)
}

/// The producer of `dists/<suite>`: in the staging directory `dir`, the
/// source and per-architecture indices of `pool/<suite>` under `pocket_dir`,
/// each compressed and with its `Release` stanza, then the top-level
/// `Release`, signed inline into `InRelease` and detached into `Release.gpg`
/// by `signer`.
pub fn dists_plan(
    dir: &str,
    pocket_dir: &str,
    suite: &Suite,
    pocket: &Pocket,
    archs: &Vec<Arch>,
    signer: &str,
) -> (r: Vec<Step>)
    ensures
        steps_view(r@) == dists_plan_of(dir@, pocket_dir@, *suite, pocket@, archs@, signer@),
{
    let pool = cat("pool/", suite.id());
    let main_dir = path2(dir, "main");
    let src = path2(main_dir.as_str(), "source");
    let sources = path2(src.as_str(), "Sources");
    let mut plan: Vec<Step> = Vec::new();
    push_step(&mut plan, Step::MakeDir(dir.to_owned()));
    push_step(&mut plan, Step::MakeDir(main_dir.clone()));
    push_step(&mut plan, Step::MakeDir(src.clone()));
    let sargs = vec!["-qq".to_owned(), "sources".to_owned(), pool.clone()];
    assert(views(sargs@) =~= seq!["-qq"@, "sources"@, "pool/"@ + suite.0@]);
    push_step(&mut plan, run("apt-ftparchive", sargs, Some(pocket_dir.to_owned()), Some(sources.clone())));
    let gargs = vec!["--keep".to_owned(), sources.clone()];
    assert(views(gargs@) =~= seq!["--keep"@, sources@]);
    push_step(&mut plan, run("gzip", gargs, None, None));
    push_step(&mut plan, Step::WriteFile(path2(src.as_str(), "Release"), component_release(suite, pocket, "source")));
    let ghost head = steps_view(plan@);
    assert(head =~= source_steps(dir@, pocket_dir@, *suite, pocket@));
    let mut i: usize = 0;
    assert(archs@.subrange(0, 0) =~= Seq::<Arch>::empty());
    assert(steps_view(plan@) =~= head + all_arch_steps(dir@, pocket_dir@, *suite, pocket@, archs@.subrange(0, 0)));
    while i < archs.len()
        invariant
            i <= archs@.len(),
            main_dir@ == join(dir@, "main"@),
            pool@ == "pool/"@ + suite.0@,
            steps_view(plan@) == head + all_arch_steps(dir@, pocket_dir@, *suite, pocket@, archs@.subrange(0, i as int)),
        decreases archs@.len() - i,
    {
        let a = archs[i];
        let ghost sub = archs@.subrange(0, i + 1);
        assert(sub.drop_last() =~= archs@.subrange(0, i as int));
        assert(sub.last() == a);
        let ghost before = steps_view(plan@);
        let bin = path2(main_dir.as_str(), cat("binary-", a.id()).as_str());
        let packages = path2(bin.as_str(), "Packages");
        push_step(&mut plan, Step::MakeDir(bin.clone()));
        let pargs = vec![
            "-qq".to_owned(),
            "--arch".to_owned(),
            a.id().to_owned(),
            "packages".to_owned(),
            pool.clone(),
        ];
        assert(views(pargs@) =~= seq!["-qq"@, "--arch"@, a@, "packages"@, "pool/"@ + suite.0@]);
        push_step(&mut plan, run("apt-ftparchive", pargs, Some(pocket_dir.to_owned()), Some(packages.clone())));
        let gargs = vec!["--keep".to_owned(), packages.clone()];
        assert(views(gargs@) =~= seq!["--keep"@, packages@]);
        push_step(&mut plan, run("gzip", gargs, None, None));
        push_step(&mut plan, Step::WriteFile(path2(bin.as_str(), "Release"), component_release(suite, pocket, a.id())));
        assert(steps_view(plan@) =~= before + arch_steps(dir@, pocket_dir@, *suite, pocket@, a@));
        i = i + 1;
    }
    assert(archs@.subrange(0, archs@.len() as int) =~= archs@);
    let ghost mid = steps_view(plan@);
    let release = path2(dir, "Release");
    let field = archs_field(archs);
    let mut description = "APT::FTPArchive::Release::Description=Pop!_OS Staging ".to_owned();
    description.append(suite.id());
    description.append(" ");
    description.append(suite.version());
    description.append(" ");
    description.append(pocket.id());
    let rargs = vec![
        "-o".to_owned(), cat("APT::FTPArchive::Release::Origin=pop-os-staging-", pocket.id()),
        "-o".to_owned(), cat("APT::FTPArchive::Release::Label=Pop!_OS Staging ", pocket.id()),
        "-o".to_owned(), cat("APT::FTPArchive::Release::Suite=", suite.id()),
        "-o".to_owned(), cat("APT::FTPArchive::Release::Version=", suite.version()),
        "-o".to_owned(), cat("APT::FTPArchive::Release::Codename=", suite.id()),
        "-o".to_owned(), cat("APT::FTPArchive::Release::Architectures=", field.as_str()),
        "-o".to_owned(), "APT::FTPArchive::Release::Components=main".to_owned(),
        "-o".to_owned(), description,
        "release".to_owned(), ".".to_owned(),
    ];
    assert(views(rargs@) =~= release_args(*suite, pocket@, archs_field_of(archs@)));
    push_step(&mut plan, run("apt-ftparchive", rargs, Some(dir.to_owned()), Some(release.clone())));
    let inline_args = vec![
        "--clearsign".to_owned(), "--local-user".to_owned(), signer.to_owned(), "--batch".to_owned(),
        "--yes".to_owned(), "--digest-algo".to_owned(), "sha512".to_owned(), "-o".to_owned(),
        path2(dir, "InRelease"), release.clone(),
    ];
    assert(views(inline_args@) =~= sign_args("--clearsign"@, signer@, join(dir@, "InRelease"@), release@));
    push_step(&mut plan, run("gpg", inline_args, None, None));
    let detached_args = vec![
        "-abs".to_owned(), "--local-user".to_owned(), signer.to_owned(), "--batch".to_owned(),
        "--yes".to_owned(), "--digest-algo".to_owned(), "sha512".to_owned(), "-o".to_owned(),
        path2(dir, "Release.gpg"), release.clone(),
    ];
    assert(views(detached_args@) =~= sign_args("-abs"@, signer@, join(dir@, "Release.gpg"@), release@));
    push_step(&mut plan, run("gpg", detached_args, None, None));
    assert(steps_view(plan@) =~= mid + release_steps(dir@, *suite, pocket@, archs@, signer@));
    plan
}

/// The dists producer first creates its staging directory, so that every
/// file it writes is published together by one rename; it ends by writing
/// the top-level `Release` and then signing that same file inline into
/// `InRelease` and detached into `Release.gpg`.
pub proof fn lemma_dists_signed_together(
    dir: Seq<char>,
    pocket_dir: Seq<char>,
    suite: Suite,
    pocket: Seq<char>,
    archs: Seq<Arch>,
    signer: Seq<char>,
)
    ensures
        ({
            let p = dists_plan_of(dir, pocket_dir, suite, pocket, archs, signer);
            let n = p.len() as int;
            let release = join(dir, "Release"@);
            &&& n >= 9
            &&& p[0] == StepV::MakeDir(dir)
            &&& p[n - 3] == StepV::Run(
                "apt-ftparchive"@,
                release_args(suite, pocket, archs_field_of(archs)),
                Some(dir),
                Some(release),
            )
            &&& p[n - 2] == StepV::Run(
                "gpg"@,
                sign_args("--clearsign"@, signer, join(dir, "InRelease"@), release),
                None,
                None,
            )
            &&& p[n - 1] == StepV::Run(
                "gpg"@,
                sign_args("-abs"@, signer, join(dir, "Release.gpg"@), release),
                None,
                None,
            )
        }),
{
    let a = source_steps(dir, pocket_dir, suite, pocket);
    let b = all_arch_steps(dir, pocket_dir, suite, pocket, archs);
    let c = release_steps(dir, suite, pocket, archs, signer);
    let p = dists_plan_of(dir, pocket_dir, suite, pocket, archs, signer);
    assert(p == a + b + c);
    let n = p.len() as int;
    assert(p[n - 3] == c[0]);
    assert(p[n - 2] == c[1]);
    assert(p[n - 1] == c[2]);
    assert(p[0] == a[0]);
}

/// A copy of each of `files` into `dir`, under its own name.
pub open spec fn copies_of(files: Seq<NamedPath>, dir: Seq<char>) -> Seq<StepV> {
    files.map_values(|f: NamedPath| StepV::Copy(f.path@, join(dir, f.name@)))
}

/// The producer of a pool entry: the directory `dir`, holding the package's
/// `.dsc`, source tarballs and binary packages.
pub open spec fn pool_plan_of(dir: Seq<char>, p: Package) -> Seq<StepV> {
    seq![StepV::MakeDir(dir)] + copies_of(p.dscs@, dir) + copies_of(p.tars@, dir) + copies_of(p.debs@, dir)
}

fn push_copies(plan: &mut Vec<Step>, files: &Vec<NamedPath>, dir: &str)
    ensures
        steps_view(final(plan)@) == steps_view(old(plan)@) + copies_of(files@, dir@),
{
    let ghost start = steps_view(plan@);
    let mut i: usize = 0;
    assert(copies_of(files@.subrange(0, 0), dir@) =~= Seq::<StepV>::empty());
    assert(steps_view(plan@) =~= start + copies_of(files@.subrange(0, 0), dir@));
    while i < files.len()
        invariant
            i <= files@.len(),
            steps_view(plan@) == start + copies_of(files@.subrange(0, i as int), dir@),
        decreases files@.len() - i,
    {
        push_step(plan, Step::Copy(files[i].path.clone(), path2(dir, files[i].name.as_str())));
        assert(copies_of(files@.subrange(0, i + 1), dir@) =~= copies_of(files@.subrange(0, i as int), dir@).push(
            StepV::Copy(files@[i as int].path@, join(dir@, files@[i as int].name@)),
        ));
        i = i + 1;
    }
    assert(files@.subrange(0, files@.len() as int) =~= files@);
}

/// The producer of the pool entry `dir` of a package.
pub fn pool_plan(dir: &str, package: &Package) -> (r: Vec<Step>)
    ensures
        steps_view(r@) == pool_plan_of(dir@, *package),
{
    let mut plan: Vec<Step> = Vec::new();
    push_step(&mut plan, Step::MakeDir(dir.to_owned()));
    push_copies(&mut plan, &package.dscs, dir);
    push_copies(&mut plan, &package.tars, dir);
    push_copies(&mut plan, &package.debs, dir);
    plan
}

/// Source uploads happen for the `master` pocket only, when asked for, and
/// when the suite has an upload target.
pub fn upload_wanted(pocket: &Pocket, upload: bool, dput: Option<&str>) -> (r: bool)
    ensures
        r == (upload && pocket@ == "master"@ && dput is Some),
{
    upload && str_eq(pocket.id(), "master") && dput.is_some()
}

/// The marker that records the upload of a source `.changes` file: the same
/// path with `_source.changes` replaced by `_source.ppa.upload`. Other
/// `.changes` files are not uploaded.
pub fn upload_marker(changes: &str) -> (r: Option<String>)
    ensures
        is_suffix("_source.changes"@, changes@) <==> r is Some,
        r matches Some(m) ==> m@ == changes@.subrange(0, changes@.len() - "_source.changes"@.len())
            + "_source.ppa.upload"@,
{
    if !ends_with(changes, "_source.changes") {
        return None;
    }
    let n = changes.unicode_len();
    let k = "_source.changes".unicode_len();
    let stem = changes.substring_char(0, n - k);
    Some(cat(stem, "_source.ppa.upload"))
}

/// The upload of a source `.changes` file to `target`.
pub fn upload_step(target: &str, changes: &str) -> (r: Step)
    ensures
        step_view(r) == StepV::Run("dput"@, seq![target@, changes@], None, None),
{
    let args = vec![target.to_owned(), changes.to_owned()];
    assert(views(args@) =~= seq![target@, changes@]);
    run("dput", args, None, None)
}

/// The options shared by both publication passes.
pub open spec fn rsync_base(dev: bool) -> Seq<Seq<char>> {
    seq![
        "--recursive"@, "--times"@, "--links"@, "--safe-links"@, "--hard-links"@, "--stats"@, "--rsh=ssh"@,
        if dev { "./_build/ci-dev/apt/"@ } else { "./_build/ci/apt/"@ },
        if dev {
            "ubuntu@apt-origin.pop-os.org:/var/www/html/staging-ubuntu/"@
        } else {
            "ubuntu@apt-origin.pop-os.org:/var/www/html/staging/"@
        },
    ]
}

/// The first pass: new package data, without any index, deleting nothing.
pub open spec fn packages_pass(dev: bool) -> StepV {
    StepV::Run(
        "rsync"@,
        seq!["--exclude"@, "Packages*"@, "--exclude"@, "Sources*"@, "--exclude"@, "Release*"@, "--exclude"@, "InRelease"@]
            + rsync_base(dev),
        None,
        None,
    )
}

/// The second pass: the indices, deleting what is gone.
pub open spec fn release_pass(dev: bool) -> StepV {
    StepV::Run("rsync"@, seq!["--delete"@, "--delete-after"@] + rsync_base(dev), None, None)
}

fn rsync_args(dev: bool, mut args: Vec<String>) -> (r: Vec<String>)
    ensures
        views(r@) == views(args@) + rsync_base(dev),
{
    let ghost start = views(args@);
    args.push("--recursive".to_owned());
    args.push("--times".to_owned());
    args.push("--links".to_owned());
    args.push("--safe-links".to_owned());
    args.push("--hard-links".to_owned());
    args.push("--stats".to_owned());
    args.push("--rsh=ssh".to_owned());
    if dev {
        args.push("./_build/ci-dev/apt/".to_owned());
        args.push("ubuntu@apt-origin.pop-os.org:/var/www/html/staging-ubuntu/".to_owned());
    } else {
        args.push("./_build/ci/apt/".to_owned());
        args.push("ubuntu@apt-origin.pop-os.org:/var/www/html/staging/".to_owned());
    }
    assert(views(args@) =~= start + rsync_base(dev));
    args
}

/// The publication of the archive: the package data first, then the
/// indices.
pub fn publish_plan(dev: bool) -> (r: Vec<Step>)
    ensures
        steps_view(r@) == seq![packages_pass(dev), release_pass(dev)],
{
    let first = vec![
        "--exclude".to_owned(), "Packages*".to_owned(), "--exclude".to_owned(), "Sources*".to_owned(),
        "--exclude".to_owned(), "Release*".to_owned(), "--exclude".to_owned(), "InRelease".to_owned(),
    ];
    assert(views(first@) =~= seq!["--exclude"@, "Packages*"@, "--exclude"@, "Sources*"@, "--exclude"@, "Release*"@, "--exclude"@, "InRelease"@]);
    let second = vec!["--delete".to_owned(), "--delete-after".to_owned()];
    assert(views(second@) =~= seq!["--delete"@, "--delete-after"@]);
    let mut plan: Vec<Step> = Vec::new();
    push_step(&mut plan, run("rsync", rsync_args(dev, first), None, None));
    push_step(&mut plan, run("rsync", rsync_args(dev, second), None, None));
    assert(steps_view(plan@) =~= seq![packages_pass(dev), release_pass(dev)]);
    plan
}

/// When a run of the publication plan starts its second step, the release
/// pass, the first step, the package pass, has completed successfully.
pub proof fn lemma_packages_before_release(dev: bool, r: Runner)
    requires
        r.wf(),
        !r.failed,
        r.next == 1,
    ensures
        r.outcomes@[0],
        seq![packages_pass(dev), release_pass(dev)][0] == packages_pass(dev),
        seq![packages_pass(dev), release_pass(dev)][1] == release_pass(dev),
{
    crate::plan::lemma_runs_in_order(r, 1, 0);
}

} // verus!
