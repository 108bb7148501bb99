//! Reports of a build step's state to the code host, and the address of a
//! branch's protection settings.

use vstd::prelude::*;
use crate::git::GitCommit;
use crate::plan::Command;
use crate::repo::Suite;
use crate::text::{cat, cat3, trim, trimmed, views};

verus! {

/// The JSON text of the object with the members `fields`.
pub uninterp spec fn json_object_text(fields: Seq<(Seq<char>, Seq<char>)>) -> Seq<char>;

pub open spec fn pair_views(v: Seq<(String, String)>) -> Seq<(Seq<char>, Seq<char>)> {
    v.map_values(|p: (String, String)| (p.0@, p.1@))
}

/// Relies on `json::stringify` on a `BTreeMap` of string pairs: the JSON text
/// of the object whose members they are, which depends on the pairs alone.
#[verifier::external_body]
fn stringify_object(fields: &Vec<(String, String)>) -> (r: String)
    ensures
        r@ == json_object_text(pair_views(fields@)),
{
    let map: std::collections::BTreeMap<&str, &str> = fields.iter().map(
        |p| (p.0.as_str(), p.1.as_str()),
    ).collect();
    json::stringify(map)
}

/// The status context and description of a step of a suite's build.
pub open spec fn status_labels_of(dev: bool, suite: Seq<char>, step: Seq<char>) -> (Seq<char>, Seq<char>) {
    if dev {
        ("ubuntu/staging/"@ + suite + "/"@ + step, "Ubuntu Staging "@ + suite + " "@ + step)
    } else {
        ("pop-os/staging/"@ + suite + "/"@ + step, "Pop!_OS Staging "@ + suite + " "@ + step)
    }
}

/// The status context and description of a step (`source`, or
/// `binary-<arch>`) of a suite's build.
pub fn status_labels(dev: bool, suite: &Suite, step: &str) -> (r: (String, String))
    ensures
        (r.0@, r.1@) == status_labels_of(dev, suite.0@, step@),
{
    let (c, d) = if dev {
        ("ubuntu/staging/", "Ubuntu Staging ")
    } else {
        ("pop-os/staging/", "Pop!_OS Staging ")
    };
    let mut context = cat3(c, suite.id(), "/");
    context.append(step);
    let mut description = cat3(d, suite.id(), " ");
    description.append(step);
    (context, description)
}

/// The members of a status report.
pub open spec fn status_fields_of(
    context: Seq<char>,
    description: Seq<char>,
    state: Seq<char>,
    target_url: Seq<char>,
) -> Seq<(Seq<char>, Seq<char>)> {
    seq![
        ("context"@, context),
        ("description"@, description),
        ("state"@, state),
        ("target_url"@, target_url),
    ]
}

/// The JSON body of a status report.
pub fn status_payload(context: &str, description: &str, state: &str, target_url: &str) -> (r: String)
    ensures
        r@ == json_object_text(status_fields_of(context@, description@, state@, target_url@)),
{
    let fields = vec![
        ("context".to_owned(), context.to_owned()),
        ("description".to_owned(), description.to_owned()),
        ("state".to_owned(), state.to_owned()),
        ("target_url".to_owned(), target_url.to_owned()),
    ];
    assert(pair_views(fields@) =~= status_fields_of(context@, description@, state@, target_url@));
    stringify_object(&fields)
}

/// The statuses address of a commit of a repository.
pub open spec fn status_url_of(repo: Seq<char>, commit: Seq<char>) -> Seq<char> {
    "https://api.github.com/repos/pop-os/"@ + repo + "/statuses/"@ + commit
}

/// The arguments of the request that posts `payload` to `url` with the
/// access token `token`.
pub open spec fn status_args_of(token: Seq<char>, payload: Seq<char>, url: Seq<char>) -> Seq<Seq<char>> {
    seq![
        "--silent"@,
        "--show-error"@,
        "--header"@,
        "Authorization: token "@ + token,
        "--header"@,
        "Content-Type: application/json"@,
        "--data-raw"@,
        payload,
        "--request"@,
        "POST"@,
        url,
    ]
}

/// The request that posts `payload` to `url` with the token `token`, its
/// output discarded.
pub fn status_request(token: &str, payload: String, url: String) -> (r: Command)
    ensures
        r.program@ == "curl"@,
        views(r.args@) == status_args_of(token@, payload@, url@),
        r.cwd is None,
        r.stdout_to is None,
{
    let ghost p = payload@;
    let ghost u = url@;
    let args = vec![
        "--silent".to_owned(),
        "--show-error".to_owned(),
        "--header".to_owned(),
        cat("Authorization: token ", token),
        "--header".to_owned(),
        "Content-Type: application/json".to_owned(),
        "--data-raw".to_owned(),
        payload,
        "--request".to_owned(),
        "POST".to_owned(),
        url,
    ];
    assert(views(args@) =~= status_args_of(token@, p, u));
    Command { program: "curl".to_owned(), args, cwd: None, stdout_to: None }
}

/// The report that `commit` of `repo` is in `state` for the step named by
/// `context` and `description`; `token_text` is the token file's text,
/// whose surrounding white space is dropped.
pub fn github_status(
    token_text: &str,
    repo: &str,
    commit: &GitCommit,
    context: &str,
    description: &str,
    state: &str,
    target_url: &str,
) -> (r: Command)
    ensures
        r.program@ == "curl"@,
        views(r.args@) == status_args_of(
            trimmed(token_text@),
            json_object_text(status_fields_of(context@, description@, state@, target_url@)),
            status_url_of(repo@, commit@),
        ),
        r.cwd is None,
        r.stdout_to is None,
{
    let token = trim(token_text);
    let payload = status_payload(context, description, state, target_url);
    let mut url = cat3("https://api.github.com/repos/pop-os/", repo, "/statuses/");
    url.append(commit.id());
    status_request(token.as_str(), payload, url)
}

/// The address of the protection settings of a branch of a repository.
pub fn protection_url(repo: &str, branch: &str) -> (r: String)
    ensures
        r@ == "https://api.github.com/repos/pop-os/"@ + repo@ + "/branches/"@ + branch@ + "/protection"@,
{
    let mut s = cat3("https://api.github.com/repos/pop-os/", repo, "/branches/");
    s.append(branch);
    s.append("/protection");
    s
}

} // verus!
