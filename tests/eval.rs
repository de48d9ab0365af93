use r13y::cli::{parse_subset, request_subsets};
use r13y::eval::{eval, eval_root, instantiate_args, log_file_name, query_requisites_command, requisite_drvs};
use r13y::messages::{BuildRequest, BuildRequestV1, BuildResponseV1, BuildStatus, Subset};
use r13y::workqueue::WorkQueue;

fn strings(v: &[&str]) -> Vec<String> {
    v.iter().map(|s| s.to_string()).collect()
}

fn req() -> BuildRequestV1 {
    BuildRequestV1 {
        nixpkgs_revision: "abc".to_string(),
        nixpkgs_sha256sum: "0sha".to_string(),
        result_url: "bogus".to_string(),
        subsets: vec![],
    }
}

fn response(drv: &str, status: BuildStatus) -> BuildResponseV1 {
    BuildResponseV1 { request: BuildRequest::V1(req()), drv: drv.to_string(), status }
}

#[test]
fn requisites_keep_derivations_only() {
    let listing = "/nix/store/a-x.drv\n/nix/store/b-src.tar.gz\n/nix/store/c-y.drv\n";
    assert_eq!(requisite_drvs(listing), strings(&["/nix/store/a-x.drv", "/nix/store/c-y.drv"]));
    assert_eq!(requisite_drvs(""), Vec::<String>::new());
}

#[test]
fn eval_collects_each_derivation_once() {
    let listings = strings(&["/s/a.drv\n/s/b.drv\n", "/s/b.drv\n/s/c.drv\n/s/out\n"]);
    let job = eval(&listings, vec![]);
    assert_eq!(job.to_build, strings(&["/s/a.drv", "/s/b.drv", "/s/c.drv"]));
    assert!(job.skip_list.is_empty());
    assert!(job.results.is_empty());
}

#[test]
fn skip_list_semantics() {
    let prior = vec![
        response("/s/a.drv", BuildStatus::Reproducible),
        response("/s/b.drv", BuildStatus::FirstFailed),
        response("/s/c.drv", BuildStatus::SecondFailed),
    ];
    let job = eval(&strings(&["/s/a.drv\n/s/b.drv\n/s/c.drv\n/s/d.drv\n"]), prior);
    assert_eq!(job.skip_list, strings(&["/s/a.drv", "/s/c.drv"]));
    assert_eq!(job.results.len(), 2);
    let c = r13y::check::Coordinator::new(job.to_build, &job.skip_list, job.results);
    assert_eq!(c.pending_drvs(), strings(&["/s/b.drv", "/s/d.drv"]));
}

#[test]
fn log_file_is_per_revision() {
    assert_eq!(log_file_name("abc"), "reproducibility-log-abc.json");
    assert_eq!(eval_root("./tmp/"), "./tmp/result.drv");
}

#[test]
fn instantiate_line_for_all_attributes() {
    let args = instantiate_args(&req(), Subset::Nixpkgs, &None, "EXPR", "./tmp/result.drv");
    assert_eq!(
        args,
        strings(&[
            "nix-instantiate", "-E", "EXPR", "--add-root", "./tmp/result.drv", "--indirect",
            "--argstr", "revision", "abc", "--argstr", "sha256", "0sha",
            "--argstr", "subfile", "./default.nix", "--argstr", "attrsJSON", "[]",
        ])
    );
}

#[test]
fn instantiate_line_for_some_attributes() {
    let attrs = Some(vec![strings(&["nixos", "iso_minimal", "x86_64-linux"])]);
    let args = instantiate_args(&req(), Subset::NixOSReleaseCombined, &attrs, "E", "r");
    assert_eq!(args[14], "./nixos/release-combined.nix");
    assert_eq!(args[17], "[[\"nixos\",\"iso_minimal\",\"x86_64-linux\"]]");
    assert_eq!(query_requisites_command("r"), strings(&["nix-store", "--query", "--requisites", "r"]));
}

#[test]
fn subsets_from_command_line() {
    assert_eq!(parse_subset("nixpkgs"), Ok((Subset::Nixpkgs, vec![])));
    assert_eq!(
        parse_subset("nixos:nixos.iso_minimal.x86_64-linux"),
        Ok((Subset::NixOSReleaseCombined, strings(&["nixos", "iso_minimal", "x86_64-linux"])))
    );
    assert_eq!(parse_subset("nixpkgs:"), Ok((Subset::Nixpkgs, strings(&[""]))));
    assert_eq!(parse_subset("hello"), Err("unknown subset specifier"));
    assert_eq!(parse_subset(""), Err("unknown subset specifier"));
}

#[test]
fn subsets_grouped_into_request() {
    let pairs = vec![
        (Subset::Nixpkgs, strings(&["hello"])),
        (Subset::NixOSReleaseCombined, strings(&["a", "b"])),
        (Subset::NixOSReleaseCombined, strings(&["c"])),
        (Subset::Nixpkgs, vec![]),
    ];
    let mut r = request_subsets(pairs);
    r.sort_by_key(|(s, _)| *s == Subset::NixOSReleaseCombined);
    assert_eq!(r.len(), 2);
    assert_eq!(r[0], (Subset::Nixpkgs, None));
    assert_eq!(r[1], (Subset::NixOSReleaseCombined, Some(vec![strings(&["a", "b"]), strings(&["c"])])));
}

#[test]
fn subset_files() {
    assert_eq!(Subset::Nixpkgs.path(), "./default.nix");
    assert_eq!(Subset::NixOSReleaseCombined.path(), "./nixos/release-combined.nix");
}

#[test]
fn work_queue_takes_from_tail() {
    let mut q = WorkQueue::new(strings(&["a", "b"]));
    q.push("c".to_string());
    assert_eq!(q.len(), 3);
    assert_eq!(q.next(), Some("c".to_string()));
    assert_eq!(q.next(), Some("b".to_string()));
    assert_eq!(q.next(), Some("a".to_string()));
    assert_eq!(q.next(), None);
    assert!(q.is_empty());
}

#[test]
fn shuffled_queue_holds_the_same_paths() {
    let input = strings(&["a", "b", "c", "d", "e"]);
    let mut q = WorkQueue::shuffled(input.clone());
    let mut out = Vec::new();
    while let Some(p) = q.next() {
        out.push(p);
    }
    out.sort();
    assert_eq!(out, input);
}

#[test]
fn attribute_json_escapes_strings() {
    let attrs = Some(vec![strings(&["a\"b", "c\\d"]), strings(&["e\nf", "\u{1}", "\t"]), vec![]]);
    let args = instantiate_args(&req(), Subset::Nixpkgs, &attrs, "E", "r");
    assert_eq!(args[17], "[[\"a\\\"b\",\"c\\\\d\"],[\"e\\nf\",\"\\u0001\",\"\\t\"],[]]");
}
