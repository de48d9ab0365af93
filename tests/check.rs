use r13y::cas::ContentAddressedStorage;
use r13y::check::{
    check_build_command, check_path, check_reproducibility, first_build_command, followup, slow_timeout,
    next_pass, worker_count, worker_paths, BuildOutcome, Capture, Coordinator, Followup, MoreToDo, NextPass,
};
use r13y::messages::{BuildRequest, BuildRequestV1, BuildResponseV1, BuildStatus, Subset};
use r13y::text::hex_digest;

fn request() -> BuildRequest {
    BuildRequest::V1(BuildRequestV1 {
        nixpkgs_revision: "rev1".to_string(),
        nixpkgs_sha256sum: "sha".to_string(),
        result_url: "bogus".to_string(),
        subsets: vec![(Subset::Nixpkgs, None)],
    })
}

fn response(drv: &str, status: BuildStatus) -> BuildResponseV1 {
    BuildResponseV1 { request: request(), drv: drv.to_string(), status }
}

fn strings(v: &[&str]) -> Vec<String> {
    v.iter().map(|s| s.to_string()).collect()
}

#[test]
fn classification_of_builds() {
    assert_eq!(check_reproducibility(BuildOutcome::FirstBuildFailed), Ok(BuildStatus::FirstFailed));
    assert_eq!(check_reproducibility(BuildOutcome::CheckBuildExited(Some(0))), Ok(BuildStatus::Reproducible));
    assert_eq!(check_reproducibility(BuildOutcome::CheckBuildExited(Some(101))), Err(MoreToDo::RetryLonger));
    assert_eq!(check_reproducibility(BuildOutcome::CheckBuildExited(Some(1))), Err(MoreToDo::CaptureCheckDir));
    assert_eq!(check_reproducibility(BuildOutcome::CheckBuildExited(None)), Err(MoreToDo::CaptureCheckDir));
}

#[test]
fn check_timeout_then_success() {
    let first = check_reproducibility(BuildOutcome::CheckBuildExited(Some(101)));
    assert_eq!(first, Err(MoreToDo::RetryLonger));
    assert_eq!(followup(MoreToDo::RetryLonger, false), Followup::Defer);
    assert_eq!(slow_timeout(Some(600)), Some(1200));
    let mut c = Coordinator::new(strings(&["/s/d1.drv"]), &vec![], vec![]);
    let retry = check_reproducibility(BuildOutcome::CheckBuildExited(Some(0)));
    assert_eq!(retry, Ok(BuildStatus::Reproducible));
    c.on_response(response("/s/d1.drv", retry.unwrap()));
    assert!(c.is_settled());
    let log = c.into_results();
    assert_eq!(log.len(), 1);
    assert_eq!(log[0].status, BuildStatus::Reproducible);
}

#[test]
fn timeout_on_slow_pass_goes_to_capture() {
    assert_eq!(followup(MoreToDo::RetryLonger, true), Followup::Capture);
    assert_eq!(followup(MoreToDo::CaptureCheckDir, false), Followup::Capture);
    assert_eq!(slow_timeout(None), None);
    assert_eq!(slow_timeout(Some(u64::MAX)), Some(u64::MAX));
}

#[test]
fn build_command_lines() {
    assert_eq!(
        first_build_command("./tmp/thread-1/buildA", "/s/d1.drv", 4),
        strings(&["nix-store", "--add-root", "./tmp/thread-1/buildA", "--indirect", "--realise", "/s/d1.drv", "--cores", "4"])
    );
    assert_eq!(
        check_build_command("/s/d1.drv", 12, None),
        strings(&["nix-store", "--realise", "/s/d1.drv", "--cores", "12", "--timeout", "0", "--check", "--keep-failed"])
    );
    assert_eq!(check_build_command("/s/d1.drv", 1, Some(3600))[6], "3600");
}

#[test]
fn check_path_is_sibling() {
    assert_eq!(check_path("/nix/store/abc-foo-1.2.3"), "/nix/store/abc-foo-1.2.3.check");
}

#[test]
fn worker_layout() {
    assert_eq!(worker_count(3, 1), 3);
    assert_eq!(worker_count(7, 2), 3);
    let p = worker_paths("./tmp/", 2);
    assert_eq!(p.dir, "./tmp/thread-2");
    assert_eq!(p.gc_root_a, "./tmp/thread-2/buildA");
    assert_eq!(p.gc_root_check, "./tmp/thread-2/check");
}

#[test]
fn capture_without_check_outputs_is_second_failed() {
    assert_eq!(Capture::new().finish(), BuildStatus::SecondFailed);
}

#[test]
fn unreproducible_with_check_dir() {
    let cas = ContentAddressedStorage::new("./tmp/".to_string());
    let declared = cas.from_chunks(&vec![b"one".to_vec()]);
    let checked = cas.from_chunks(&vec![b"two".to_vec()]);
    let mut capture = Capture::new();
    assert!(capture.record("out".to_string(), &declared, &checked));
    match capture.finish() {
        BuildStatus::Unreproducible(hashes) => {
            assert_eq!(hashes.len(), 1);
            let (a, b) = hashes.get("out").unwrap();
            assert_eq!(a, declared.id());
            assert_eq!(b, checked.id());
            assert!(hex_digest(a) && hex_digest(b));
            assert_ne!(a, b);
        }
        other => panic!("expected unreproducible, got {:?}", other),
    }
}

#[test]
fn capture_refuses_non_digest_ids() {
    let cas = ContentAddressedStorage::new("./tmp/".to_string());
    let good = cas.from_chunks(&vec![b"one".to_vec()]);
    let bad = cas.str_to_id("not-a-digest", true).unwrap();
    let mut capture = Capture::new();
    assert!(!capture.record("out".to_string(), &good, &bad));
    assert_eq!(capture.finish(), BuildStatus::SecondFailed);
}

#[test]
fn all_reproducible() {
    let mut c = Coordinator::new(strings(&["/s/d1.drv", "/s/d2.drv"]), &vec![], vec![]);
    let r1 = c.on_response(response("/s/d1.drv", BuildStatus::Reproducible));
    assert_eq!(r1.progress, Some((1, 2)));
    let r2 = c.on_response(response("/s/d2.drv", BuildStatus::Reproducible));
    assert_eq!(r2.progress, Some((2, 2)));
    assert!(c.is_settled());
    let log = c.into_results();
    assert_eq!(log.len(), 2);
    assert!(log.iter().all(|r| r.status == BuildStatus::Reproducible));
}

#[test]
fn first_failed_transient() {
    let mut c = Coordinator::new(strings(&["/s/d1.drv"]), &vec![], vec![]);
    let r = c.on_response(response("/s/d1.drv", BuildStatus::FirstFailed));
    assert_eq!(r.requeue, Some("/s/d1.drv".to_string()));
    assert!(!r.abort);
    assert!(!c.is_settled());
    let r = c.on_response(response("/s/d1.drv", BuildStatus::Reproducible));
    assert_eq!(r.requeue, None);
    assert!(c.is_settled());
    let log = c.into_results();
    assert_eq!(log.len(), 1);
    assert_eq!(log[0].drv, "/s/d1.drv");
    assert_eq!(log[0].status, BuildStatus::Reproducible);
}

#[test]
fn first_failed_persistent() {
    let mut c = Coordinator::new(strings(&["/s/d1.drv", "/s/d2.drv"]), &vec![], vec![]);
    c.on_response(response("/s/d1.drv", BuildStatus::FirstFailed));
    let r = c.on_response(response("/s/d1.drv", BuildStatus::FirstFailed));
    assert_eq!(r.requeue, None);
    assert!(!r.abort);
    c.on_response(response("/s/d2.drv", BuildStatus::Reproducible));
    assert!(c.is_settled());
    let log = c.into_results();
    let failed: Vec<_> = log.iter().filter(|r| r.status == BuildStatus::FirstFailed).collect();
    assert_eq!(failed.len(), 1);
    assert_eq!(failed[0].drv, "/s/d1.drv");
}

#[test]
fn abort_threshold() {
    let drvs = ["/s/d1.drv", "/s/d2.drv", "/s/d3.drv", "/s/d4.drv"];
    let mut c = Coordinator::new(strings(&drvs), &vec![], vec![]);
    for d in drvs.iter() {
        let r = c.on_response(response(d, BuildStatus::FirstFailed));
        assert_eq!(r.requeue, Some(d.to_string()));
    }
    for (i, d) in drvs.iter().enumerate() {
        let r = c.on_response(response(d, BuildStatus::FirstFailed));
        if i < 3 {
            assert!(!r.abort);
        } else {
            assert!(r.abort);
            assert!(r.flush);
        }
    }
    assert_eq!(c.results().len(), 4);
}

#[test]
fn log_flushed_every_tenth_response() {
    let drvs: Vec<String> = (0..12).map(|i| format!("/s/d{}.drv", i)).collect();
    let mut c = Coordinator::new(drvs.clone(), &vec![], vec![]);
    for (i, d) in drvs.iter().enumerate() {
        let r = c.on_response(response(d, BuildStatus::SecondFailed));
        assert_eq!(r.flush, i == 9);
    }
}

#[test]
fn unknown_or_repeated_responses_are_ignored() {
    let mut c = Coordinator::new(strings(&["/s/d1.drv"]), &vec![], vec![]);
    let r = c.on_response(response("/s/other.drv", BuildStatus::Reproducible));
    assert_eq!(r.progress, None);
    c.on_response(response("/s/d1.drv", BuildStatus::Reproducible));
    let r = c.on_response(response("/s/d1.drv", BuildStatus::SecondFailed));
    assert_eq!(r.progress, None);
    assert_eq!(c.results().len(), 1);
}

#[test]
fn skip_list_leaves_settled_derivations_out() {
    let prior = vec![response("/s/d1.drv", BuildStatus::Reproducible)];
    let c = Coordinator::new(strings(&["/s/d1.drv", "/s/d2.drv", "/s/d2.drv"]), &strings(&["/s/d1.drv"]), prior);
    assert_eq!(c.pending_drvs(), strings(&["/s/d2.drv"]));
    assert_eq!(c.results().len(), 1);
}

#[test]
fn passes_until_settled_then_slow_queue() {
    assert_eq!(next_pass(true, false, false), NextPass::Stop);
    assert_eq!(next_pass(false, false, true), NextPass::Again);
    assert_eq!(next_pass(false, true, false), NextPass::Slow);
    assert_eq!(next_pass(false, true, true), NextPass::Stop);
}

#[test]
fn three_double_failures_do_not_abort() {
    let drvs = ["/s/d1.drv", "/s/d2.drv", "/s/d3.drv", "/s/d4.drv"];
    let mut c = Coordinator::new(strings(&drvs), &vec![], vec![]);
    for d in drvs[..3].iter() {
        assert!(!c.on_response(response(d, BuildStatus::FirstFailed)).abort);
        assert!(!c.on_response(response(d, BuildStatus::FirstFailed)).abort);
    }
    let r = c.on_response(response("/s/d4.drv", BuildStatus::Reproducible));
    assert!(!r.abort);
    assert!(c.is_settled());
    let log = c.into_results();
    assert_eq!(log.iter().filter(|r| r.status == BuildStatus::FirstFailed).count(), 3);
}
