//! The chroot package build of one architecture, run here or on the
//! remote ARM builder.

use vstd::prelude::*;
use crate::plan::{Command, opt_view};
use crate::repo::{Arch, RepoInfo, Suite, arch_is_arm, builds_all, mirror_of};
use crate::text::{cat, cat3, views};

verus! {

/// The flag that tells the builder whether to build the `all` packages.
pub open spec fn arch_all_flag(arch: Seq<char>) -> Seq<char> {
    if builds_all(arch) {
        "--arch-all"@
    } else {
        "--no-arch-all"@
    }
}

/// The shell script that builds `dsc` for `arch` and `suite` in `path`, with
/// the upstream updates and security pockets, the `release` and `staging`
/// repositories, and the key `key`.
pub open spec fn sbuild_script_of(
    path: Seq<char>,
    arch: Seq<char>,
    suite: Seq<char>,
    release: Seq<char>,
    staging: Seq<char>,
    key: Seq<char>,
    dsc: Seq<char>,
) -> Seq<char> {
    "#!/usr/bin/env bash\n\nset -e\n\nmkdir -p '"@ + 
        path + 
        "'\ncd '"@ + 
        path + 
        "'\nsbuild \\\n    '--quiet' \\\n    '"@ + 
        arch_all_flag(arch) + 
        "' \\\n    '--arch="@ + 
        arch + 
        "' \\\n    '--dist="@ + 
        suite + 
        "' \\\n    '--extra-repository=deb "@ + 
        mirror_of(arch, suite) + 
        " "@ + 
        suite + 
        "-updates main restricted universe multiverse' \\\n    '--extra-repository=deb "@ + 
        mirror_of(arch, suite) + 
        " "@ + 
        suite + 
        "-security main restricted universe multiverse' \\\n    '--extra-repository=deb "@ + 
        release + 
        " "@ + 
        suite + 
        " main' \\\n    '--extra-repository=deb "@ + 
        staging + 
        " "@ + 
        suite + 
        " main' \\\n    '--extra-repository-key="@ + 
        key + 
        "' \\\n    '--no-apt-distupgrade' \\\n    '--no-run-autopkgtest' \\\n    '--no-run-lintian' \\\n    '--no-run-piuparts' \\\n    '"@ + 
        dsc + 
        "'\n"@
}

/// The build script of `dsc` for one architecture of a suite, run in `path`.
pub fn sbuild_script(arch: &Arch, suite: &Suite, info: &RepoInfo, path: &str, dsc: &str) -> (r: String)
    ensures
        r@ == sbuild_script_of(path@, arch@, suite.0@, info.release@, info.staging@, info.key@, dsc@),
{
    let arch_all = if arch.build_all() {
        "--arch-all"
    } else {
        "--no-arch-all"
    };
    let mirror = arch.ubuntu_mirror(suite.id());
    let mut s = String::new();
    s.append("#!/usr/bin/env bash\n\nset -e\n\nmkdir -p '");
    s.append(path);
    s.append("'\ncd '");
    s.append(path);
    s.append("'\nsbuild \\\n    '--quiet' \\\n    '");
    s.append(arch_all);
    s.append("' \\\n    '--arch=");
    s.append(arch.id());
    s.append("' \\\n    '--dist=");
    s.append(suite.id());
    s.append("' \\\n    '--extra-repository=deb ");
    s.append(mirror);
    s.append(" ");
    s.append(suite.id());
    s.append("-updates main restricted universe multiverse' \\\n    '--extra-repository=deb ");
    s.append(mirror);
    s.append(" ");
    s.append(suite.id());
    s.append("-security main restricted universe multiverse' \\\n    '--extra-repository=deb ");
    s.append(info.release);
    s.append(" ");
    s.append(suite.id());
    s.append(" main' \\\n    '--extra-repository=deb ");
    s.append(info.staging);
    s.append(" ");
    s.append(suite.id());
    s.append(" main' \\\n    '--extra-repository-key=");
    s.append(info.key.as_str());
    s.append("' \\\n    '--no-apt-distupgrade' \\\n    '--no-run-autopkgtest' \\\n    '--no-run-lintian' \\\n    '--no-run-piuparts' \\\n    '");
    s.append(dsc);
    s.append("'\n");
    s
}

/// The script that creates the build chroot of `arch` and `suite` when it is
/// missing.
pub open spec fn chroot_script_of(arch: Seq<char>, suite: Seq<char>) -> Seq<char> {
    "#!/usr/bin/env bash\n\nCHROOT=\"/srv/chroot/"@ + 
        suite + 
        "-"@ + 
        arch + 
        "-sbuild\"\nif [ ! -d \"$CHROOT\" ]\nthen\n    set -ex\n\n    sudo auto-apt-proxy sbuild-createchroot \\\n        '--include=gnupg,auto-apt-proxy' \\\n        '--components=main,restricted,universe,multiverse' \\\n        '--arch="@ + 
        arch + 
        "' \\\n        '"@ + 
        suite + 
        "' \\\n        \"$CHROOT\" \\\n        '"@ + 
        mirror_of(arch, suite) + 
        "'\nfi\n"@
}

/// The script that creates the build chroot of an architecture and a suite.
pub fn chroot_script(arch: &Arch, suite: &Suite) -> (r: String)
    ensures
        r@ == chroot_script_of(arch@, suite.0@),
{
    let mirror = arch.ubuntu_mirror(suite.id());
    let mut s = String::new();
    s.append("#!/usr/bin/env bash\n\nCHROOT=\"/srv/chroot/");
    s.append(suite.id());
    s.append("-");
    s.append(arch.id());
    s.append("-sbuild\"\nif [ ! -d \"$CHROOT\" ]\nthen\n    set -ex\n\n    sudo auto-apt-proxy sbuild-createchroot \\\n        '--include=gnupg,auto-apt-proxy' \\\n        '--components=main,restricted,universe,multiverse' \\\n        '--arch=");
    s.append(arch.id());
    s.append("' \\\n        '");
    s.append(suite.id());
    s.append("' \\\n        \"$CHROOT\" \\\n        '");
    s.append(mirror);
    s.append("'\nfi\n");
    s
}

/// The script that updates the build chroot of `arch` and `suite`.
pub open spec fn update_script_of(arch: Seq<char>, suite: Seq<char>) -> Seq<char> {
    "#!/usr/bin/env bash\n\nset -ex\n\nsudo sbuild-update \\\n    '--update' \\\n    '--dist-upgrade' \\\n    '--clean' \\\n    '--autoclean' \\\n    '--autoremove' \\\n    '--arch="@ + 
        arch + 
        "' \\\n    '"@ + 
        suite + 
        "' \\\n"@
}

/// The script that updates the build chroot of an architecture and a suite.
pub fn update_script(arch: &Arch, suite: &Suite) -> (r: String)
    ensures
        r@ == update_script_of(arch@, suite.0@),
{
    let mut s = String::new();
    s.append("#!/usr/bin/env bash\n\nset -ex\n\nsudo sbuild-update \\\n    '--update' \\\n    '--dist-upgrade' \\\n    '--clean' \\\n    '--autoclean' \\\n    '--autoremove' \\\n    '--arch=");
    s.append(arch.id());
    s.append("' \\\n    '");
    s.append(suite.id());
    s.append("' \\\n");
    s
}

/// Where a script runs: through `ssh` on the ARM builder for ARM
/// architectures, else through `sh -c` here.
pub open spec fn script_command_of(arch: Seq<char>, builder: Option<Seq<char>>, script: Seq<char>) -> (Seq<char>, Seq<Seq<char>>) {
    if arch_is_arm(arch) {
        ("ssh"@, seq![builder->Some_0, "--"@, script])
    } else {
        ("sh"@, seq!["-c"@, script])
    }
}

/// The command that runs `script` for `arch`; an ARM architecture needs the
/// ARM builder's address.
pub fn script_command(arch: &Arch, builder: &Option<String>, script: String) -> (r: Command)
    requires
        arch_is_arm(arch@) ==> builder is Some,
    ensures
        (r.program@, views(r.args@)) == script_command_of(arch@, opt_view(*builder), script@),
        r.cwd is None,
        r.stdout_to is None,
{
    if arch.is_arm() {
        let host = match builder {
            Some(h) => h.clone(),
            None => String::new(),
        };
        let args = vec![host, "--".to_owned(), script];
        assert(views(args@) =~= seq![opt_view(*builder)->Some_0, "--"@, script@]);
        Command { program: "ssh".to_owned(), args, cwd: None, stdout_to: None }
    } else {
        let args = vec!["-c".to_owned(), script];
        assert(views(args@) =~= seq!["-c"@, script@]);
        Command { program: "sh".to_owned(), args, cwd: None, stdout_to: None }
    }
}

/// What the binary stage needs to build one architecture of a suite.
#[derive(Clone, Debug)]
pub struct BinaryContext {
    pub arch: Arch,
    pub arm64: Option<String>,
    pub dsc_path: String,
    pub repo_info: RepoInfo,
    pub source: String,
    pub suite: Suite,
}

/// The options of every transfer to and from the ARM builder.
pub open spec fn rsync_opts() -> Seq<Seq<char>> {
    seq!["--archive"@, "--compress"@, "--delay-updates"@, "--delete"@, "--mkpath"@, "--rsh=ssh"@]
}

/// How one architecture is built into the staging directory `path`.
#[derive(Debug)]
pub enum BinaryJob {
    /// Run the script here.
    Local(Command),
    /// Send the source directory to the ARM builder (under the process-wide
    /// transfer lock), run the script there, then fetch the results back,
    /// also after a failed build.
    Remote { upload: Command, build: Command, fetch: Command },
}

fn rsync_command(from: String, to: String) -> (r: Command)
    ensures
        r.program@ == "rsync"@,
        views(r.args@) == rsync_opts() + seq![from@, to@],
        r.cwd is None,
        r.stdout_to is None,
{
    let args = vec![
        "--archive".to_owned(),
        "--compress".to_owned(),
        "--delay-updates".to_owned(),
        "--delete".to_owned(),
        "--mkpath".to_owned(),
        "--rsh=ssh".to_owned(),
        from,
        to,
    ];
    assert(views(args@) =~= rsync_opts() + seq![from@, to@]);
    Command { program: "rsync".to_owned(), args, cwd: None, stdout_to: None }
}

/// The build of `ctx.arch` into `path` (which the caller creates first): the
/// build script of `ctx.dsc_path`, run here, or for an ARM architecture on
/// the builder `ctx.arm64` with the source directory sent before and the
/// results fetched after.
pub fn binary_build(ctx: &BinaryContext, path: &str) -> (r: BinaryJob)
    requires
        arch_is_arm(ctx.arch@) ==> ctx.arm64 is Some,
    ensures
        ({
            let script = sbuild_script_of(
                path@,
                ctx.arch@,
                ctx.suite.0@,
                ctx.repo_info.release@,
                ctx.repo_info.staging@,
                ctx.repo_info.key@,
                ctx.dsc_path@,
            );
            match r {
                BinaryJob::Local(c) => {
                    &&& !arch_is_arm(ctx.arch@)
                    &&& c.program@ == "sh"@
                    &&& views(c.args@) == seq!["-c"@, script]
                    &&& c.cwd is None
                    &&& c.stdout_to is None
                },
                BinaryJob::Remote { upload, build, fetch } => {
                    let host = ctx.arm64->Some_0@;
                    &&& arch_is_arm(ctx.arch@)
                    &&& upload.cwd is None && upload.stdout_to is None
                    &&& build.cwd is None && build.stdout_to is None
                    &&& fetch.cwd is None && fetch.stdout_to is None
                    &&& upload.program@ == "rsync"@
                    &&& views(upload.args@) == rsync_opts() + seq![
                        ctx.source@ + "/"@,
                        host + ":"@ + ctx.source@ + "/"@,
                    ]
                    &&& build.program@ == "ssh"@
                    &&& views(build.args@) == seq![host, "--"@, script]
                    &&& fetch.program@ == "rsync"@
                    &&& views(fetch.args@) == rsync_opts() + seq![
                        host + ":"@ + path@ + "/"@,
                        path@ + "/"@,
                    ]
                },
            }
        }),
{
    let script = sbuild_script(&ctx.arch, &ctx.suite, &ctx.repo_info, path, ctx.dsc_path.as_str());
    let build = script_command(&ctx.arch, &ctx.arm64, script);
    if ctx.arch.is_arm() {
        let host = match &ctx.arm64 {
            Some(h) => h.as_str(),
            None => "",
        };
        let mut remote_source = cat3(host, ":", ctx.source.as_str());
        remote_source.append("/");
        let mut remote_path = cat3(host, ":", path);
        remote_path.append("/");
        let upload = rsync_command(cat(ctx.source.as_str(), "/"), remote_source);
        let fetch = rsync_command(remote_path, cat(path, "/"));
        BinaryJob::Remote { upload, build, fetch }
    } else {
        BinaryJob::Local(build)
    }
}

/// The outcome of a remote build: it succeeds when the build and the fetch
/// of its results both do.
pub fn remote_outcome(build_ok: bool, fetch_ok: bool) -> (r: bool)
    ensures
        r == (build_ok && fetch_ok),
{
    build_ok && fetch_ok
}

} // verus!
