use pop_ci::cache::{BuildPlan, Cache, CacheError, CacheOp};

fn names(v: &[&str]) -> Vec<String> {
    v.iter().map(|s| s.to_string()).collect()
}

fn node() -> Cache {
    Cache { path: "/c".to_string(), cleaned: false }
}

#[test]
fn open_prunes_unretained_children() {
    let (cache, removed) = Cache::new(
        "/c",
        &names(&["git", "junk", "apt", "old.log"]),
        &names(&["git", "apt", "log"]),
    );
    assert_eq!(removed, names(&["junk", "old.log"]));
    assert!(cache.cleaned());
    assert_eq!(cache.path(), "/c");
}

#[test]
fn open_keeps_everything_retained() {
    let (cache, removed) = Cache::new("/c", &names(&["git"]), &names(&["git", "apt"]));
    assert!(removed.is_empty());
    assert!(!cache.cleaned());
}

#[test]
fn open_empty_directory() {
    let (cache, removed) = Cache::new("/c", &Vec::new(), &Vec::new());
    assert!(removed.is_empty());
    assert!(!cache.cleaned());
}

#[test]
fn child_joins_path() {
    let (child, removed) = node().child("git", &names(&["alpha", "beta"]), &names(&["alpha"]));
    assert_eq!(child.path(), "/c/git");
    assert_eq!(removed, names(&["beta"]));
    assert!(child.cleaned());
}

#[test]
fn fresh_build_produces_then_publishes() {
    let plan = node().build("source", false, false, false);
    assert_eq!(plan.target, "/c/source");
    assert_eq!(plan.partial, "/c/partial.source");
    assert_eq!(plan.ops, vec![CacheOp::Produce, CacheOp::Publish]);
    assert_eq!(plan.failure, None);
    assert!(plan.rebuilt());
}

#[test]
fn present_artifact_is_reused_without_force() {
    let plan = node().build("source", false, true, false);
    assert!(plan.ops.is_empty());
    assert_eq!(plan.failure, None);
    assert!(!plan.rebuilt());
    assert_eq!(plan.target, "/c/source");
}

#[test]
fn reuse_ignores_leftover_partial() {
    let plan = node().build("source", false, true, true);
    assert_eq!(plan.failure, None);
    assert!(!plan.rebuilt());
}

#[test]
fn forced_build_removes_then_rebuilds() {
    let plan = node().build("source", true, true, false);
    assert_eq!(plan.ops, vec![CacheOp::RemoveTarget, CacheOp::Produce, CacheOp::Publish]);
    assert_eq!(plan.failure, None);
    assert!(plan.rebuilt());
}

#[test]
fn forced_build_of_missing_artifact() {
    let plan = node().build("source", true, false, false);
    assert_eq!(plan.ops, vec![CacheOp::Produce, CacheOp::Publish]);
}

#[test]
fn leftover_partial_fails_build() {
    let plan = node().build("source", false, false, true);
    assert!(plan.ops.is_empty());
    assert_eq!(plan.failure, Some(CacheError::PartialExists));
}

#[test]
fn forced_build_removes_artifact_before_failing_on_partial() {
    let plan = node().build("source", true, true, true);
    assert_eq!(plan.ops, vec![CacheOp::RemoveTarget]);
    assert_eq!(plan.failure, Some(CacheError::PartialExists));
    assert!(!plan.rebuilt());
}

#[test]
fn reserved_prefix_is_refused() {
    let plan = node().build("partial.source", false, false, false);
    assert_eq!(plan.failure, Some(CacheError::ReservedName));
    assert!(plan.ops.is_empty());
    assert_eq!(node().build("partial.", true, true, true).failure, Some(CacheError::ReservedName));
    assert_eq!(node().build("partialsource", false, false, false).failure, None);
}

#[test]
fn parallel_builds_keep_order() {
    let r = node().build_parallel(
        &names(&["amd64", "arm64", "i386"]),
        &vec![false, false, true],
        &vec![true, false, false],
        &vec![false, true, false],
    );
    assert_eq!(r.len(), 3);
    assert!(!r[0].rebuilt());
    assert_eq!(r[0].failure, None);
    assert_eq!(r[1].failure, Some(CacheError::PartialExists));
    let p: &BuildPlan = &r[2];
    assert_eq!(p.target, "/c/i386");
    assert_eq!(p.partial, "/c/partial.i386");
    assert_eq!(p.ops, vec![CacheOp::Produce, CacheOp::Publish]);
    assert!(p.rebuilt());
}
