//! Source-control identifiers, the arguments of each git call, and the
//! reading of the remote heads listing.

use vstd::prelude::*;
use crate::text::{
    cat, cat3, contains_char, has_char, is_prefix, lines, lines_of, split_at_char, split_on,
    starts_with, str_eq, views,
};

verus! {

/// A branch name, without the remote prefix.
#[derive(Clone, Debug, PartialEq, Eq, Hash, PartialOrd, Ord)]
pub struct GitBranch(pub String);

/// A short commit id.
#[derive(Clone, Debug, PartialEq, Eq, Hash, PartialOrd, Ord)]
pub struct GitCommit(pub String);

/// A remote name.
#[derive(Clone, Debug, PartialEq, Eq, Hash, PartialOrd, Ord)]
pub struct GitRemote(pub String);

/// A repository checkout, by its directory.
#[derive(Clone, Debug, PartialEq, Eq)]
pub struct GitRepo(pub String);

impl View for GitBranch {
    type V = Seq<char>;

    open spec fn view(&self) -> Seq<char> {
        self.0@
    }
}

impl View for GitCommit {
    type V = Seq<char>;

    open spec fn view(&self) -> Seq<char> {
        self.0@
    }
}

impl View for GitRemote {
    type V = Seq<char>;

    open spec fn view(&self) -> Seq<char> {
        self.0@
    }
}

impl GitBranch {
    pub fn new(id: &str) -> (r: Self)
        ensures
            r@ == id@,
    {
        GitBranch(id.to_owned())
    }

    pub fn id(&self) -> (r: &str)
        ensures
            r@ == self@,
    {
        self.0.as_str()
    }
}

impl GitCommit {
    pub fn new(id: &str) -> (r: Self)
        ensures
            r@ == id@,
    {
        GitCommit(id.to_owned())
    }

    pub fn id(&self) -> (r: &str)
        ensures
            r@ == self@,
    {
        self.0.as_str()
    }
}

impl GitRemote {
    pub fn new(id: &str) -> (r: Self)
        ensures
            r@ == id@,
    {
        GitRemote(id.to_owned())
    }

    pub fn origin() -> (r: Self)
        ensures
            r@ == "origin"@,
    {
        GitRemote::new("origin")
    }

    pub fn id(&self) -> (r: &str)
        ensures
            r@ == self@,
    {
        self.0.as_str()
    }
}

/// Why the heads listing of a remote could not be read.
#[derive(Clone, Copy, Debug, PartialEq, Eq, Structural)]
pub enum HeadsError {
    /// Remote names holding `/` are not supported.
    RemoteWithSlash,
    /// A line of the listing has no tab-separated ref name.
    MissingRef,
    /// A listed ref lies outside the remote's namespace.
    RefOutsidePrefix,
}

/// The ref namespace of a remote's branches.
pub open spec fn remote_prefix(remote: Seq<char>) -> Seq<char> {
    "refs/remotes/"@ + remote + "/"@
}

/// What one line `<commit>\t<ref>` of the listing gives: an error, nothing
/// (the `HEAD` alias, or a branch name with `/`), or `(branch, commit)`.
pub open spec fn head_of_line(line: Seq<char>, prefix: Seq<char>) -> Result<
    Option<(Seq<char>, Seq<char>)>,
    HeadsError,
> {
    let fields = split_on(line, '\t');
    if fields.len() < 2 {
        Err(HeadsError::MissingRef)
    } else if !is_prefix(prefix, fields[1]) {
        Err(HeadsError::RefOutsidePrefix)
    } else {
        let branch = fields[1].subrange(prefix.len() as int, fields[1].len() as int);
        if branch == "HEAD"@ || contains_char(branch, '/') {
            Ok(None)
        } else {
            Ok(Some((branch, fields[0])))
        }
    }
}

/// The heads of a listing, in its order; the first bad line decides the
/// error.
pub open spec fn heads_of_lines(lines: Seq<Seq<char>>, prefix: Seq<char>) -> Result<
    Seq<(Seq<char>, Seq<char>)>,
    HeadsError,
>
    decreases lines.len(),
{
    if lines.len() == 0 {
        Ok(Seq::empty())
    } else {
        match heads_of_lines(lines.drop_last(), prefix) {
            Err(e) => Err(e),
            Ok(hs) => match head_of_line(lines.last(), prefix) {
                Err(e) => Err(e),
                Ok(None) => Ok(hs),
                Ok(Some(h)) => Ok(hs.push(h)),
            },
        }
    }
}

/// An error in the first `k` lines is the error of the whole listing.
pub proof fn lemma_heads_error_stays(lines: Seq<Seq<char>>, prefix: Seq<char>, k: int)
    requires
        0 <= k <= lines.len(),
        heads_of_lines(lines.subrange(0, k), prefix) is Err,
    ensures
        heads_of_lines(lines, prefix) == heads_of_lines(lines.subrange(0, k), prefix),
    decreases lines.len() - k,
{
    if k == lines.len() {
        assert(lines.subrange(0, k) =~= lines);
    } else {
        assert(lines.drop_last().subrange(0, k) =~= lines.subrange(0, k));
        lemma_heads_error_stays(lines.drop_last(), prefix, k);
    }
}

/// The heads that the listing `out` of remote `remote` names.
pub open spec fn heads_of(remote: Seq<char>, out: Seq<char>) -> Result<
    Seq<(Seq<char>, Seq<char>)>,
    HeadsError,
> {
    if contains_char(remote, '/') {
        Err(HeadsError::RemoteWithSlash)
    } else {
        heads_of_lines(lines_of(out), remote_prefix(remote))
    }
}

/// Views of a list of heads.
pub open spec fn heads_view(hs: Seq<(GitBranch, GitCommit)>) -> Seq<(Seq<char>, Seq<char>)> {
    hs.map_values(|h: (GitBranch, GitCommit)| (h.0@, h.1@))
}

/// The argument list `-C <dir>` that every git call starts with.
pub open spec fn repo_args(dir: Seq<char>) -> Seq<Seq<char>> {
    seq!["-C"@, dir]
}

impl GitRepo {
    pub fn new(dir: &str) -> (r: Self)
        ensures
            r.0@ == dir@,
    {
        GitRepo(dir.to_owned())
    }

    pub fn path(&self) -> (r: &str)
        ensures
            r@ == self.0@,
    {
        self.0.as_str()
    }

    /// The leading arguments of a git call on this repository.
    pub fn command(&self) -> (r: Vec<String>)
        ensures
            views(r@) == repo_args(self.0@),
    {
        let r = vec!["-C".to_owned(), self.0.clone()];
        assert(views(r@) =~= repo_args(self.0@));
        r
    }

    /// The git arguments of a quiet, pruning fetch of `remote`.
    pub fn fetch(&self, remote: &GitRemote) -> (r: Vec<String>)
        ensures
            views(r@) == repo_args(self.0@) + seq!["fetch"@, "--prune"@, "--quiet"@, "--"@, remote@],
    {
        let r = vec![
            "-C".to_owned(),
            self.0.clone(),
            "fetch".to_owned(),
            "--prune".to_owned(),
            "--quiet".to_owned(),
            "--".to_owned(),
            remote.0.clone(),
        ];
        assert(views(r@) =~= repo_args(self.0@) + seq![
            "fetch"@,
            "--prune"@,
            "--quiet"@,
            "--"@,
            remote@,
        ]);
        r
    }

    /// The git arguments that list the branch heads of `remote`; remote names
    /// holding `/` are refused.
    pub fn heads_command(&self, remote: &GitRemote) -> (r: Result<Vec<String>, HeadsError>)
        ensures
            contains_char(remote@, '/') <==> r is Err,
            r is Err ==> r == Err::<Vec<String>, HeadsError>(HeadsError::RemoteWithSlash),
            r matches Ok(v) ==> views(v@) == repo_args(self.0@) + seq![
                "for-each-ref"@,
                "--format=%(objectname:short)\t%(refname)"@,
                "--"@,
                remote_prefix(remote@),
            ],
    {
        if has_char(remote.id(), '/') {
            return Err(HeadsError::RemoteWithSlash);
        }
        let r = vec![
            "-C".to_owned(),
            self.0.clone(),
            "for-each-ref".to_owned(),
            "--format=%(objectname:short)\t%(refname)".to_owned(),
            "--".to_owned(),
            cat3("refs/remotes/", remote.id(), "/"),
        ];
        assert(views(r@) =~= repo_args(self.0@) + seq![
            "for-each-ref"@,
            "--format=%(objectname:short)\t%(refname)"@,
            "--"@,
            remote_prefix(remote@),
        ]);
        Ok(r)
    }

    /// The heads that the listing `out` names: `(branch, commit)` for each
    /// branch of `remote`, without `HEAD` and without names holding `/`.
    pub fn heads(&self, remote: &GitRemote, out: &str) -> (r: Result<
        Vec<(GitBranch, GitCommit)>,
        HeadsError,
    >)
        ensures
            match r {
                Ok(hs) => heads_of(remote@, out@) == Ok::<_, HeadsError>(heads_view(hs@)),
                Err(e) => heads_of(remote@, out@) == Err::<Seq<(Seq<char>, Seq<char>)>, _>(e),
            },
    {
        if has_char(remote.id(), '/') {
            return Err(HeadsError::RemoteWithSlash);
        }
        let prefix = cat3("refs/remotes/", remote.id(), "/");
        let ls = lines(out);
        let mut heads: Vec<(GitBranch, GitCommit)> = Vec::new();
        let mut i: usize = 0;
        assert(views(ls@).subrange(0, 0) =~= Seq::<Seq<char>>::empty());
        assert(heads_view(heads@) =~= Seq::<(Seq<char>, Seq<char>)>::empty());
        while i < ls.len()
            invariant
                i <= ls@.len(),
                views(ls@) == lines_of(out@),
                prefix@ == remote_prefix(remote@),
                !contains_char(remote@, '/'),
                heads_of_lines(views(ls@).subrange(0, i as int), prefix@) == Ok::<_, HeadsError>(
                    heads_view(heads@),
                ),
            decreases ls@.len() - i,
        {
            let ghost upto = views(ls@).subrange(0, i + 1);
            assert(upto.drop_last() =~= views(ls@).subrange(0, i as int));
            assert(upto.last() == ls@[i as int]@);
            let line = ls[i].as_str();
            let fields = split_at_char(line, '\t');
            if fields.len() < 2 {
                proof {
                    assert(views(fields@) == split_on(upto.last(), '\t'));
                    assert(head_of_line(upto.last(), prefix@) == Err::<
                        Option<(Seq<char>, Seq<char>)>,
                        HeadsError,
                    >(HeadsError::MissingRef));
                    assert(heads_of_lines(upto, prefix@) == Err::<
                        Seq<(Seq<char>, Seq<char>)>,
                        HeadsError,
                    >(HeadsError::MissingRef));
                    lemma_heads_error_stays(views(ls@), prefix@, i + 1);
                    assert(views(ls@).subrange(0, i + 1) == upto);
                    assert(heads_of(remote@, out@) == heads_of_lines(views(ls@), prefix@));
                }
                return Err(HeadsError::MissingRef);
            }
            let refname = fields[1].as_str();
            if !starts_with(refname, prefix.as_str()) {
                proof {
                    assert(views(fields@) == split_on(upto.last(), '\t'));
                    assert(views(fields@)[1] == refname@);
                    assert(head_of_line(upto.last(), prefix@) == Err::<
                        Option<(Seq<char>, Seq<char>)>,
                        HeadsError,
                    >(HeadsError::RefOutsidePrefix));
                    assert(heads_of_lines(upto, prefix@) == Err::<
                        Seq<(Seq<char>, Seq<char>)>,
                        HeadsError,
                    >(HeadsError::RefOutsidePrefix));
                    lemma_heads_error_stays(views(ls@), prefix@, i + 1);
                    assert(views(ls@).subrange(0, i + 1) == upto);
                    assert(heads_of(remote@, out@) == heads_of_lines(views(ls@), prefix@));
                }
                return Err(HeadsError::RefOutsidePrefix);
            }
            let n = refname.unicode_len();
            let m = prefix.unicode_len();
            let branch = refname.substring_char(m, n);
            if !(str_eq(branch, "HEAD") || has_char(branch, '/')) {
                let ghost old_heads = heads@;
                heads.push((GitBranch::new(branch), GitCommit::new(fields[0].as_str())));
                assert(heads_view(heads@) =~= heads_view(old_heads).push(
                    (branch@, fields@[0]@),
                ));
            }
            i = i + 1;
        }
        assert(views(ls@).subrange(0, ls@.len() as int) =~= views(ls@));
        Ok(heads)
    }

    /// The git arguments that write a tar archive of `commit` to `archive`.
    pub fn archive(&self, commit: &GitCommit, archive: &str) -> (r: Vec<String>)
        ensures
            views(r@) == repo_args(self.0@) + seq!["archive"@, "-o"@, archive@, "--"@, commit@],
    {
        let r = vec![
            "-C".to_owned(),
            self.0.clone(),
            "archive".to_owned(),
            "-o".to_owned(),
            archive.to_owned(),
            "--".to_owned(),
            commit.0.clone(),
        ];
        assert(views(r@) =~= repo_args(self.0@) + seq![
            "archive"@,
            "-o"@,
            archive@,
            "--"@,
            commit@,
        ]);
        r
    }

    /// The git arguments whose exit status tells whether `path` exists in
    /// `commit`.
    pub fn file_exists(&self, commit: &GitCommit, path: &str) -> (r: Vec<String>)
        ensures
            views(r@) == repo_args(self.0@) + seq!["cat-file"@, "-e"@, commit@ + ":"@ + path@],
    {
        let r = vec![
            "-C".to_owned(),
            self.0.clone(),
            "cat-file".to_owned(),
            "-e".to_owned(),
            cat3(commit.id(), ":", path),
        ];
        assert(views(r@) =~= repo_args(self.0@) + seq![
            "cat-file"@,
            "-e"@,
            commit@ + ":"@ + path@,
        ]);
        r
    }

    /// The git arguments that print one field of `commit`'s metadata, such
    /// as `%ct` for the committer timestamp.
    pub fn commit_field(&self, commit: &GitCommit, format: &str) -> (r: Vec<String>)
        ensures
            views(r@) == repo_args(self.0@) + seq![
                "log"@,
                "-1"@,
                "--pretty=format:"@ + format@,
                commit@,
            ],
    {
        let r = vec![
            "-C".to_owned(),
            self.0.clone(),
            "log".to_owned(),
            "-1".to_owned(),
            cat("--pretty=format:", format),
            commit.0.clone(),
        ];
        assert(views(r@) =~= repo_args(self.0@) + seq![
            "log"@,
            "-1"@,
            "--pretty=format:"@ + format@,
            commit@,
        ]);
        r
    }
}

} // verus!
