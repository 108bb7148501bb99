use pop_ci::git::GitCommit;
use pop_ci::repo::Suite;
use pop_ci::status::{github_status, protection_url, status_labels, status_payload};

#[test]
fn labels_by_mode() {
    let focal = Suite::new("focal").unwrap();
    assert_eq!(
        status_labels(false, &focal, "source"),
        ("pop-os/staging/focal/source".to_string(), "Pop!_OS Staging focal source".to_string())
    );
    assert_eq!(
        status_labels(true, &focal, "binary-amd64"),
        ("ubuntu/staging/focal/binary-amd64".to_string(), "Ubuntu Staging focal binary-amd64".to_string())
    );
}

#[test]
fn payload_is_json_object() {
    let p = status_payload("ctx", "desc \"q\"", "pending", "http://b/1");
    assert_eq!(p, r#"{"context":"ctx","description":"desc \"q\"","state":"pending","target_url":"http://b/1"}"#);
}

#[test]
fn status_request_trims_token() {
    let c = github_status("  tok\n", "alpha", &GitCommit::new("c0ffee1"), "ctx", "d", "failure", "u");
    assert_eq!(c.program, "curl");
    assert_eq!(c.args[3], "Authorization: token tok");
    assert_eq!(c.args[7], r#"{"context":"ctx","description":"d","state":"failure","target_url":"u"}"#);
    assert_eq!(c.args[10], "https://api.github.com/repos/pop-os/alpha/statuses/c0ffee1");
}

#[test]
fn protection_address() {
    assert_eq!(
        protection_url("keyboard-configurator", "master"),
        "https://api.github.com/repos/pop-os/keyboard-configurator/branches/master/protection"
    );
}

#[test]
fn trim_removes_unicode_white_space() {
    assert_eq!(pop_ci::text::trim("\u{3000}\t tok \u{85}\n"), "tok");
    assert_eq!(pop_ci::text::trim("  "), "");
    assert_eq!(pop_ci::text::trim(""), "");
    assert_eq!(pop_ci::text::trim("a b"), "a b");
}
