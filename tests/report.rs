use r13y::derivation::{Derivation, DerivationParseError};
use r13y::messages::{BuildRequest, BuildRequestV1, BuildResponseV1, BuildStatus, Hashes};
use r13y::report::{code_item, diff_file_name, diff_item, diff_jobs, is_relevant, metrics_page, tally};
use r13y::store::{AddToStoreError, Store};
use r13y::diffoscope::{diff_command, restore_command, touch_command, Diffoscope};

fn strings(v: &[&str]) -> Vec<String> {
    v.iter().map(|s| s.to_string()).collect()
}

fn response(rev: &str, drv: &str, status: BuildStatus) -> BuildResponseV1 {
    BuildResponseV1 {
        request: BuildRequest::V1(BuildRequestV1 {
            nixpkgs_revision: rev.to_string(),
            nixpkgs_sha256sum: "s".to_string(),
            result_url: "u".to_string(),
            subsets: vec![],
        }),
        drv: drv.to_string(),
        status,
    }
}

fn hashes(entries: &[(&str, &str, &str)]) -> Hashes {
    let mut h = Hashes::new();
    for (o, a, b) in entries {
        h.insert(o.to_string(), (a.to_string(), b.to_string()));
    }
    h
}

fn drv(outputs: &[(&str, Option<&str>)]) -> Derivation {
    Derivation::new(
        outputs
            .iter()
            .map(|(name, path)| {
                let fields = match path {
                    Some(p) => vec![("path".to_string(), p.to_string())],
                    None => vec![("hashAlgo".to_string(), "sha256".to_string())],
                };
                (name.to_string(), fields)
            })
            .collect(),
    )
}

#[test]
fn report_counts_relevant_responses() {
    let to_build = strings(&["/s/a.drv", "/s/b.drv", "/s/c.drv"]);
    let log = vec![
        response("r1", "/s/a.drv", BuildStatus::Reproducible),
        response("r1", "/s/b.drv", BuildStatus::SecondFailed),
        response("r1", "/s/c.drv", BuildStatus::Unreproducible(hashes(&[("out", "aa", "bb")]))),
        response("r0", "/s/a.drv", BuildStatus::SecondFailed),
        response("r1", "/s/gone.drv", BuildStatus::Reproducible),
    ];
    let t = tally(&log, "r1", &to_build);
    assert_eq!((t.total, t.reproducible, t.unchecked, t.unreproducible), (3, 1, 1, 1));
    assert!(t.first_failed.is_empty());
    assert!(!is_relevant(&log[3], "r1", &to_build));
}

#[test]
fn all_reproducible_ratio_is_one() {
    let to_build = strings(&["/s/d1.drv", "/s/d2.drv"]);
    let log = vec![
        response("r1", "/s/d1.drv", BuildStatus::Reproducible),
        response("r1", "/s/d2.drv", BuildStatus::Reproducible),
    ];
    let t = tally(&log, "r1", &to_build);
    assert_eq!(t.reproducible as f64 / t.total as f64, 1.0);
    assert_eq!(t.unreproducible, 0);
}

#[test]
fn report_lists_unresolved_first_failures() {
    let log = vec![response("r1", "/s/a.drv", BuildStatus::FirstFailed)];
    let t = tally(&log, "r1", &strings(&["/s/a.drv"]));
    assert_eq!(t.first_failed, strings(&["/s/a.drv"]));
}

#[test]
fn diff_names_and_items() {
    assert_eq!(diff_file_name("aa", "bb"), "aa-bb.html");
    assert_eq!(code_item("/s/a.drv"), "<li><code>/s/a.drv</code></li>");
    assert_eq!(diff_item("aa-bb.html", "out"), "<li><a href=\"./diff/aa-bb.html\">(diffoscope)</a> out</li>");
}

#[test]
fn diff_jobs_for_present_outputs() {
    let d = drv(&[("out", Some("/nix/store/x-foo")), ("dev", Some("/nix/store/y-foo-dev"))]);
    let h = hashes(&[("out", "aa", "bb"), ("doc", "cc", "dd")]);
    let jobs = diff_jobs(&d, &h);
    assert_eq!(jobs.len(), 2);
    let j = jobs[0].as_ref().unwrap();
    assert_eq!(j.output, "out");
    assert_eq!(j.path, "/nix/store/x-foo");
    assert_eq!(j.name, "x-foo");
    assert_eq!(j.dest_name, "aa-bb.html");
    assert!(jobs[1].is_none());
}

#[test]
fn metrics_page_text() {
    let log = vec![
        response("r1", "/s/a.drv", BuildStatus::Reproducible),
        response("r1", "/s/b.drv", BuildStatus::SecondFailed),
    ];
    let t = tally(&log, "r1", &strings(&["/s/a.drv", "/s/b.drv"]));
    let page = metrics_page("r1", 1500000000, &t);
    assert!(page.starts_with("\n# HELP r13y_check_revision"));
    assert!(page.contains("r13y_check_revision{revision=\"r1\"} 1\n"));
    assert!(page.contains("r13y_check_time_seconds 1500000000\n"));
    assert!(page.contains("r13y_paths_count 2\n"));
    assert!(page.contains("r13y_path_status_count{status=\"reproducible\"} 1\n"));
    assert!(page.contains("r13y_path_status_count{status=\"unreproducible\"} 0\n"));
    assert!(page.ends_with("r13y_path_status_count{status=\"unchecked\"} 1\n\n"));
}

#[test]
fn derivation_outputs_with_paths() {
    let d = drv(&[("out", Some("/nix/store/x-foo")), ("src", None)]);
    assert_eq!(d.outputs(), vec![("out".to_string(), "/nix/store/x-foo".to_string())]);
    assert_eq!(d.output_path("out"), Some("/nix/store/x-foo".to_string()));
    assert_eq!(d.output_path("src"), None);
}

#[test]
fn derivation_parse_picks_requested() {
    let shown = vec![
        ("/s/a.drv".to_string(), drv(&[("out", Some("/nix/store/a"))])),
        ("/s/b.drv".to_string(), drv(&[("out", Some("/nix/store/b"))])),
    ];
    let d = Derivation::parse("/s/b.drv", shown).unwrap();
    assert_eq!(d.output_path("out"), Some("/nix/store/b".to_string()));
    let missing = Derivation::parse("/s/c.drv", vec![]);
    assert!(matches!(missing, Err(DerivationParseError::NotInResult)));
}

#[test]
fn add_to_store_output_must_be_one_line() {
    let store = Store::new();
    assert_eq!(store.added_path("/nix/store/abc-x.check\n").unwrap(), "/nix/store/abc-x.check");
    match store.added_path("") {
        Err(AddToStoreError::TooManyLines(l)) => assert!(l.is_empty()),
        other => panic!("unexpected {:?}", other),
    }
    match store.added_path("a\nb\n") {
        Err(AddToStoreError::TooManyLines(l)) => assert_eq!(l, strings(&["a", "b"])),
        other => panic!("unexpected {:?}", other),
    }
}

#[test]
fn store_command_lines() {
    let store = Store::new();
    assert_eq!(
        store.create_gc_root_command("/nix/store/p", "./tmp/thread-1/check"),
        strings(&["nix-store", "--add-root", "./tmp/thread-1/check", "--indirect", "--realise", "/nix/store/p"])
    );
    assert_eq!(store.add_to_store_command("/nix/store/p.check"), strings(&["nix", "add-to-store", "/nix/store/p.check"]));
    assert_eq!(store.export_nar_command("/nix/store/p"), strings(&["nix", "dump-path", "/nix/store/p"]));
}

#[test]
fn diff_driver_command_lines() {
    assert_eq!(Diffoscope::sides("x-foo"), ("x-foo/A".to_string(), "x-foo/B".to_string()));
    assert_eq!(restore_command("/tmp/s/x/A"), strings(&["nix-store", "--restore", "/tmp/s/x/A"]));
    assert_eq!(touch_command("p"), strings(&["touch", "--date", "@1", "--no-dereference", "p"]));
    assert_eq!(diff_command("x/A", "x/B"), strings(&["diffoscope", "--html", "-", "x/A", "x/B"]));
}

#[test]
fn hashes_insert_replaces_same_output() {
    let mut h = Hashes::new();
    h.insert("out".to_string(), ("a".to_string(), "b".to_string()));
    h.insert("dev".to_string(), ("c".to_string(), "d".to_string()));
    h.insert("out".to_string(), ("e".to_string(), "f".to_string()));
    assert_eq!(h.len(), 2);
    assert_eq!(h.get("out"), Some(&("e".to_string(), "f".to_string())));
    assert_eq!(h.entries()[0].0, "out");
}
