//! The report over a finished log: which responses count, the tallies, the
//! diffs to produce, and the text of the list items and the metrics page.
use vstd::prelude::*;
use crate::check::contains_str;
use crate::derivation::{Derivation, output_paths};
use crate::messages::{BuildResponseV1, BuildStatus, Hashes, revision_of};
use crate::text::{dec_of, decimal, split, split_on, str_eq, lemma_split_nonempty};

verus! {

/// A response counts in the report when it is for the revision reported on
/// and for a derivation that the revision still instantiates.
pub open spec fn relevant(r: BuildResponseV1, revision: Seq<char>, to_build: Seq<Seq<char>>) -> bool {
    revision_of(r.request) == revision && to_build.contains(r.drv@)
}

/// Whether `response` counts in the report (see [`relevant`]).
pub fn is_relevant(response: &BuildResponseV1, revision: &str, to_build: &Vec<String>) -> (r: bool)
    ensures
        r == relevant(*response, revision@, crate::text::views(to_build@)),
{
    str_eq(response.request.revision().as_str(), revision) && contains_str(to_build, &response.drv)
}

/// Relevant responses: in all, reproducible, second-failed (unchecked),
/// and unreproducible.
pub open spec fn tally_of(log: Seq<BuildResponseV1>, revision: Seq<char>, to_build: Seq<Seq<char>>) -> (
    nat,
    nat,
    nat,
    nat,
)
    decreases log.len(),
{
    if log.len() == 0 {
        (0, 0, 0, 0)
    } else {
        let t = tally_of(log.drop_last(), revision, to_build);
        let r = log.last();
        if !relevant(r, revision, to_build) {
            t
        } else {
            match r.status {
                BuildStatus::Reproducible => (t.0 + 1, t.1 + 1, t.2, t.3),
                BuildStatus::SecondFailed => (t.0 + 1, t.1, t.2 + 1, t.3),
                BuildStatus::Unreproducible(_) => (t.0 + 1, t.1, t.2, t.3 + 1),
                BuildStatus::FirstFailed => (t.0 + 1, t.1, t.2, t.3),
            }
        }
    }
}

/// The relevant responses that are first-build failures, by derivation.
pub open spec fn first_failed_of(
    log: Seq<BuildResponseV1>,
    revision: Seq<char>,
    to_build: Seq<Seq<char>>,
) -> Seq<Seq<char>>
    decreases log.len(),
{
    if log.len() == 0 {
        Seq::empty()
    } else {
        let f = first_failed_of(log.drop_last(), revision, to_build);
        let r = log.last();
        if relevant(r, revision, to_build) && r.status is FirstFailed {
            f.push(r.drv@)
        } else {
            f
        }
    }
}

/// The counts of a report.
pub struct Tally {
    pub total: usize,
    pub reproducible: usize,
    /// Second-failed: the check build failed with nothing to compare.
    pub unchecked: usize,
    pub unreproducible: usize,
    /// Derivations whose first build failed twice; a report is only made
    /// when there are none.
    pub first_failed: Vec<String>,
}

/// Counts the relevant responses of `log`.
pub fn tally(log: &Vec<BuildResponseV1>, revision: &str, to_build: &Vec<String>) -> (r: Tally)
    ensures
        (r.total as nat, r.reproducible as nat, r.unchecked as nat, r.unreproducible as nat)
            == tally_of(log@, revision@, crate::text::views(to_build@)),
        crate::text::views(r.first_failed@) == first_failed_of(log@, revision@, crate::text::views(to_build@)),
        r.reproducible + r.unchecked + r.unreproducible <= r.total,
{
    let ghost tb = crate::text::views(to_build@);
    let mut t = Tally { total: 0, reproducible: 0, unchecked: 0, unreproducible: 0, first_failed: Vec::new() };
    let mut i: usize = 0;
    while i < log.len()
        invariant
            i <= log@.len(),
            tb == crate::text::views(to_build@),
            (t.total as nat, t.reproducible as nat, t.unchecked as nat, t.unreproducible as nat)
                == tally_of(log@.take(i as int), revision@, tb),
            crate::text::views(t.first_failed@) == first_failed_of(log@.take(i as int), revision@, tb),
            t.reproducible + t.unchecked + t.unreproducible <= t.total <= i,
        decreases log@.len() - i,
    {
        let ghost before = log@.take(i as int);
        assert(log@.take(i + 1).drop_last() =~= before);
        assert(log@.take(i + 1).last() == log@[i as int]);
        let r = &log[i];
        if is_relevant(r, revision, to_build) {
            t.total = t.total + 1;
            match &r.status {
                BuildStatus::Reproducible => {
                    t.reproducible = t.reproducible + 1;
                },
                BuildStatus::SecondFailed => {
                    t.unchecked = t.unchecked + 1;
                },
                BuildStatus::Unreproducible(_) => {
                    t.unreproducible = t.unreproducible + 1;
                },
                BuildStatus::FirstFailed => {
                    let ghost fb = crate::text::views(t.first_failed@);
                    t.first_failed.push(r.drv.clone());
                    assert(crate::text::views(t.first_failed@) =~= fb.push(r.drv@));
                },
            }
        }
        i = i + 1;
    }
    assert(log@.take(log@.len() as int) =~= log@);
    t
}

/// The last component of a path.
pub open spec fn base_name_of(path: Seq<char>) -> Seq<char> {
    split_on(path, '/').last()
}

/// The name of the file holding the diff of two archives.
pub open spec fn diff_name_of(hash_a: Seq<char>, hash_b: Seq<char>) -> Seq<char> {
    hash_a + "-"@ + hash_b + ".html"@
}

/// The name of the file holding the diff of the archives `hash_a` and
/// `hash_b`.
pub fn diff_file_name(hash_a: &str, hash_b: &str) -> (r: String)
    ensures
        r@ == diff_name_of(hash_a@, hash_b@),
{
    let mut r = hash_a.to_string();
    r.append("-");
    r.append(hash_b);
    r.append(".html");
    r
}

/// One diff to make: an output of an unreproducible derivation, its store
/// path and the name the diff tool is given (the path's last component),
/// the digests of its two archives, and the file to hold the result.
pub struct DiffJob {
    pub output: String,
    pub path: String,
    pub name: String,
    pub hash_a: String,
    pub hash_b: String,
    pub dest_name: String,
}

/// For each recorded output, in order, the diff to make, or `None` when the
/// derivation has no such output.
pub fn diff_jobs(drv: &Derivation, hashes: &Hashes) -> (r: Vec<Option<DiffJob>>)
    ensures
        r@.len() == hashes@.len(),
        forall|i: int|
            0 <= i < r@.len() ==> ((#[trigger] r@[i]) is None <==> forall|k: int|
                0 <= k < output_paths(drv@).len() ==> (#[trigger] output_paths(drv@)[k]).0 != hashes@[i].0),
        forall|i: int|
            0 <= i < r@.len() ==> ((#[trigger] r@[i]) matches Some(j) ==> {
                &&& j.output@ == hashes@[i].0
                &&& j.hash_a@ == hashes@[i].1
                &&& j.hash_b@ == hashes@[i].2
                &&& output_paths(drv@).contains((j.output@, j.path@))
                &&& j.name@ == base_name_of(j.path@)
                &&& j.dest_name@ == diff_name_of(j.hash_a@, j.hash_b@)
            }),
{
    let entries = hashes.entries();
    let mut r: Vec<Option<DiffJob>> = Vec::new();
    let mut i: usize = 0;
    while i < entries.len()
        invariant
            i <= entries@.len(),
            entries@.map_values(|e: (String, (String, String))| crate::messages::entry_view(e)) == hashes@,
            r@.len() == i,
            forall|k: int|
                0 <= k < i ==> ((#[trigger] r@[k]) is None <==> forall|m: int|
                    0 <= m < output_paths(drv@).len() ==> (#[trigger] output_paths(drv@)[m]).0 != hashes@[k].0),
            forall|k: int|
                0 <= k < i ==> ((#[trigger] r@[k]) matches Some(j) ==> {
                    &&& j.output@ == hashes@[k].0
                    &&& j.hash_a@ == hashes@[k].1
                    &&& j.hash_b@ == hashes@[k].2
                    &&& output_paths(drv@).contains((j.output@, j.path@))
                    &&& j.name@ == base_name_of(j.path@)
                    &&& j.dest_name@ == diff_name_of(j.hash_a@, j.hash_b@)
                }),
        decreases entries@.len() - i,
    {
        let (output, (hash_a, hash_b)) = &entries[i];
        assert(hashes@[i as int] == (output@, hash_a@, hash_b@));
        match drv.output_path(output.as_str()) {
            Some(path) => {
                let parts = split(path.as_str(), '/');
                proof {
                    lemma_split_nonempty(path@, '/');
                }
                let name = parts[parts.len() - 1].clone();
                assert(name@ == base_name_of(path@));
                let dest_name = diff_file_name(hash_a.as_str(), hash_b.as_str());
                r.push(
                    Some(
                        DiffJob {
                            output: output.clone(),
                            path,
                            name,
                            hash_a: hash_a.clone(),
                            hash_b: hash_b.clone(),
                            dest_name,
                        },
                    ),
                );
            },
            None => {
                r.push(None);
            },
        }
        i = i + 1;
    }
    r
}

/// A list item naming a derivation.
pub open spec fn code_item_of(drv: Seq<char>) -> Seq<char> {
    "<li><code>"@ + drv + "</code></li>"@
}

pub fn code_item(drv: &str) -> (r: String)
    ensures
        r@ == code_item_of(drv@),
{
    let mut r = "<li><code>".to_string();
    r.append(drv);
    r.append("</code></li>");
    r
}

/// A list item linking an output's diff.
pub open spec fn diff_item_of(dest_name: Seq<char>, output: Seq<char>) -> Seq<char> {
    "<li><a href=\"./diff/"@ + dest_name + "\">(diffoscope)</a> "@ + output + "</li>"@
}

pub fn diff_item(dest_name: &str, output: &str) -> (r: String)
    ensures
        r@ == diff_item_of(dest_name@, output@),
{
    let mut r = "<li><a href=\"./diff/".to_string();
    r.append(dest_name);
    r.append("\">(diffoscope)</a> ");
    r.append(output);
    r.append("</li>");
    r
}

/// The metrics page, in the exposition format of Prometheus.
pub open spec fn metrics_of(
    revision: Seq<char>,
    time: nat,
    total: nat,
    reproducible: nat,
    unreproducible: nat,
    unchecked: nat,
) -> Seq<char> {
    "\n# HELP r13y_check_revision Check's nixpkgs revision\n# TYPE r13y_check_revision counter\nr13y_check_revision{revision=\""@
        + revision + "\"} 1\n# HELP r13y_check_time_seconds Time of the latest check\n# TYPE r13y_check_time_seconds counter\nr13y_check_time_seconds "@
        + dec_of(time)
        + "\n# HELP r13y_paths_checked Number of paths checked in the latest check\n# TYPE r13y_paths_checked gauge\nr13y_paths_count "@
        + dec_of(total)
        + "\n# HELP r13y_path_status_counts Number of paths in each status\n# TYPE r13y_path_status_counts gauge\nr13y_path_status_count{status=\"reproducible\"} "@
        + dec_of(reproducible) + "\nr13y_path_status_count{status=\"unreproducible\"} "@ + dec_of(
        unreproducible,
    ) + "\nr13y_path_status_count{status=\"unchecked\"} "@ + dec_of(unchecked) + "\n\n"@
}

/// The metrics page for a report on `revision` made at `time` (seconds
/// since the epoch).
pub fn metrics_page(revision: &str, time: u64, tally: &Tally) -> (r: String)
    ensures
        r@ == metrics_of(
            revision@,
            time as nat,
            tally.total as nat,
            tally.reproducible as nat,
            tally.unreproducible as nat,
            tally.unchecked as nat,
        ),
{
    let mut r = "\n# HELP r13y_check_revision Check's nixpkgs revision\n# TYPE r13y_check_revision counter\nr13y_check_revision{revision=\"".to_string();
    r.append(revision);
    r.append("\"} 1\n# HELP r13y_check_time_seconds Time of the latest check\n# TYPE r13y_check_time_seconds counter\nr13y_check_time_seconds ");
    r.append(decimal(time).as_str());
    r.append("\n# HELP r13y_paths_checked Number of paths checked in the latest check\n# TYPE r13y_paths_checked gauge\nr13y_paths_count ");
    r.append(decimal(tally.total as u64).as_str());
    r.append("\n# HELP r13y_path_status_counts Number of paths in each status\n# TYPE r13y_path_status_counts gauge\nr13y_path_status_count{status=\"reproducible\"} ");
    r.append(decimal(tally.reproducible as u64).as_str());
    r.append("\nr13y_path_status_count{status=\"unreproducible\"} ");
    r.append(decimal(tally.unreproducible as u64).as_str());
    r.append("\nr13y_path_status_count{status=\"unchecked\"} ");
    r.append(decimal(tally.unchecked as u64).as_str());
    r.append("\n\n");
    r
}

} // verus!
