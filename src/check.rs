//! The verification engine's decisions: how a derivation's two builds are
//! classified, what the builds are run with, how the differing outputs are
//! recorded, and how the coordinator reacts to each result.
//!
//! The child processes, the threads and the log file are the caller's; every
//! choice between them is made here.
use vstd::prelude::*;
use crate::cas::ID;
use crate::messages::{BuildResponseV1, BuildStatus, Hashes, HashEntry, digests_well_formed, keys_distinct};
use crate::text::{dec_of, decimal, hex_digest, is_hex_digest, join, join_path, lemma_push_contains, views};

verus! {

/// The check build's exit code when it ran out of time.
pub const TIMEOUT_EXIT_CODE: i32 = 101;

/// What else a derivation needs after its check build failed.
#[derive(PartialEq, Eq, Structural, Debug, Clone, Copy)]
pub enum MoreToDo {
    /// The check build timed out: try again with a longer timeout.
    RetryLonger,
    /// The check build's outputs differ: capture them.
    CaptureCheckDir,
}

/// What the two builds of a derivation did.
#[derive(PartialEq, Eq, Structural, Debug, Clone, Copy)]
pub enum BuildOutcome {
    /// The first build exited non-zero; no check build was run.
    FirstBuildFailed,
    /// The first build succeeded and the check build exited with this code
    /// (`None` when a signal ended it).
    CheckBuildExited(Option<i32>),
}

/// The status that a pair of builds settles, or what remains to be done.
pub open spec fn classify(outcome: BuildOutcome) -> Result<BuildStatus, MoreToDo> {
    match outcome {
        BuildOutcome::FirstBuildFailed => Ok(BuildStatus::FirstFailed),
        BuildOutcome::CheckBuildExited(code) => if code == Some(0i32) {
            Ok(BuildStatus::Reproducible)
        } else if code == Some(TIMEOUT_EXIT_CODE) {
            Err(MoreToDo::RetryLonger)
        } else {
            Err(MoreToDo::CaptureCheckDir)
        },
    }
}

/// Classifies a derivation by its two builds: a failed first build is final,
/// a check build that exits zero shows the derivation reproducible, one that
/// times out asks for a longer retry, and any other failure asks for the
/// differing outputs to be captured.
pub fn check_reproducibility(outcome: BuildOutcome) -> (r: Result<BuildStatus, MoreToDo>)
    ensures
        r == classify(outcome),
{
    match outcome {
        BuildOutcome::FirstBuildFailed => Ok(BuildStatus::FirstFailed),
        BuildOutcome::CheckBuildExited(code) => match code {
            Some(0i32) => Ok(BuildStatus::Reproducible),
            Some(TIMEOUT_EXIT_CODE) => Err(MoreToDo::RetryLonger),
            _ => Err(MoreToDo::CaptureCheckDir),
        },
    }
}

/// What a worker does with a derivation that needs more.
#[derive(PartialEq, Eq, Structural, Debug, Clone, Copy)]
pub enum Followup {
    /// Put it on the slow queue, for a later pass with a longer timeout.
    Defer,
    /// Capture its differing outputs now.
    Capture,
}

/// A timeout is retried once, on the slow pass; a timeout on the slow pass
/// itself goes on to capture, which settles the derivation.
pub fn followup(more: MoreToDo, slow_pass: bool) -> (r: Followup)
    ensures
        r == Followup::Defer <==> (more == MoreToDo::RetryLonger && !slow_pass),
{
    match more {
        MoreToDo::RetryLonger => if slow_pass {
            Followup::Capture
        } else {
            Followup::Defer
        },
        MoreToDo::CaptureCheckDir => Followup::Capture,
    }
}

/// The timeout for the slow pass, given the first pass's (`None`: no limit):
/// twice as long, saturating.
pub fn slow_timeout(timeout: Option<u64>) -> (r: Option<u64>)
    ensures
        timeout is None ==> r is None,
        timeout matches Some(t) ==> (r matches Some(u) && u == (if 2 * t <= u64::MAX { 2 * t } else {
            u64::MAX as int
        })),
{
    match timeout {
        Some(t) => if t <= u64::MAX / 2 {
            Some(2 * t)
        } else {
            Some(u64::MAX)
        },
        None => None,
    }
}

/// The command line of the first build: realise `drv`, rooting the result at
/// `gc_root`.
pub fn first_build_command(gc_root: &str, drv: &str, cores: u16) -> (r: Vec<String>)
    ensures
        views(r@) == seq![
            "nix-store"@,
            "--add-root"@,
            gc_root@,
            "--indirect"@,
            "--realise"@,
            drv@,
            "--cores"@,
            dec_of(cores as nat),
        ],
{
    let r = vec![
        "nix-store".to_string(),
        "--add-root".to_string(),
        gc_root.to_string(),
        "--indirect".to_string(),
        "--realise".to_string(),
        drv.to_string(),
        "--cores".to_string(),
        decimal(cores as u64),
    ];
    assert(views(r@) =~= seq![
        "nix-store"@,
        "--add-root"@,
        gc_root@,
        "--indirect"@,
        "--realise"@,
        drv@,
        "--cores"@,
        dec_of(cores as nat),
    ]);
    r
}

/// The command line of the check build: build `drv` again and compare,
/// keeping a failed build's outputs; a timeout of zero means no limit.
pub fn check_build_command(drv: &str, cores: u16, timeout: Option<u64>) -> (r: Vec<String>)
    ensures
        views(r@) == seq![
            "nix-store"@,
            "--realise"@,
            drv@,
            "--cores"@,
            dec_of(cores as nat),
            "--timeout"@,
            dec_of(
                match timeout {
                    Some(t) => t as nat,
                    None => 0,
                },
            ),
            "--check"@,
            "--keep-failed"@,
        ],
{
    let t: u64 = match timeout {
        Some(t) => t,
        None => 0,
    };
    let r = vec![
        "nix-store".to_string(),
        "--realise".to_string(),
        drv.to_string(),
        "--cores".to_string(),
        decimal(cores as u64),
        "--timeout".to_string(),
        decimal(t),
        "--check".to_string(),
        "--keep-failed".to_string(),
    ];
    assert(views(r@) =~= seq![
        "nix-store"@,
        "--realise"@,
        drv@,
        "--cores"@,
        dec_of(cores as nat),
        "--timeout"@,
        dec_of(t as nat),
        "--check"@,
        "--keep-failed"@,
    ]);
    r
}

/// Where a failed check build leaves its version of an output.
pub open spec fn check_path_of(output_path: Seq<char>) -> Seq<char> {
    output_path + ".check"@
}

/// The sibling path at which the check build's version of an output is kept.
pub fn check_path(output_path: &str) -> (r: String)
    ensures
        r@ == check_path_of(output_path@),
{
    let mut r = output_path.to_string();
    r.append(".check");
    r
}

/// The outputs captured so far for one unreproducible derivation.
pub struct Capture {
    hashes: Hashes,
}

impl View for Capture {
    type V = Seq<HashEntry>;

    closed spec fn view(&self) -> Seq<HashEntry> {
        self.hashes@
    }
}

impl Capture {
    pub closed spec fn wf(&self) -> bool {
        self.hashes.wf() && digests_well_formed(self.hashes@)
    }

    pub fn new() -> (r: Capture)
        ensures
            r.wf(),
            r@ == Seq::<HashEntry>::empty(),
    {
        Capture { hashes: Hashes::new() }
    }

    /// Records the store files holding the archive of `output` as declared
    /// and as the check build made it. Files whose names are not digests are
    /// refused, and nothing is recorded.
    pub fn record(&mut self, output: String, declared: &ID, checked: &ID) -> (r: bool)
        requires
            old(self).wf(),
        ensures
            final(self).wf(),
            r <==> is_hex_digest(declared.id_view()) && is_hex_digest(checked.id_view()),
            !r ==> final(self)@ == old(self)@,
            r ==> forall|i: int| 0 <= i < old(self)@.len() && (#[trigger] old(self)@[i]).0 == output@
                ==> final(self)@ == old(self)@.update(i, (output@, declared.id_view(), checked.id_view())),
            r ==> (forall|i: int| 0 <= i < old(self)@.len() ==> (#[trigger] old(self)@[i]).0 != output@)
                ==> final(self)@ == old(self)@.push((output@, declared.id_view(), checked.id_view())),
    {
        if !hex_digest(declared.id()) || !hex_digest(checked.id()) {
            return false;
        }
        let ghost before = self.hashes@;
        let ghost e = (output@, declared.id_view(), checked.id_view());
        self.hashes.insert(output, (declared.id().to_string(), checked.id().to_string()));
        assert(digests_well_formed(self.hashes@)) by {
            assert forall|i: int| 0 <= i < self.hashes@.len() implies is_hex_digest(
                (#[trigger] self.hashes@[i]).1,
            ) && is_hex_digest(self.hashes@[i].2) by {
                if i < before.len() && self.hashes@[i] != e {
                    assert(self.hashes@[i] == before[i]);
                }
            }
        }
        true
    }

    /// The status the capture settles: second-failed when no output had a
    /// check build version, else unreproducible with what was recorded.
    pub fn finish(self) -> (r: BuildStatus)
        requires
            self.wf(),
        ensures
            self@.len() == 0 ==> r == BuildStatus::SecondFailed,
            self@.len() > 0 ==> (r matches BuildStatus::Unreproducible(h) && h@ == self@ && h.wf()),
            r matches BuildStatus::Unreproducible(h) ==> h@.len() > 0 && digests_well_formed(h@)
                && keys_distinct(h@),
    {
        if self.hashes.is_empty() {
            BuildStatus::SecondFailed
        } else {
            BuildStatus::Unreproducible(self.hashes)
        }
    }
}


/// How many derivations may fail their first build twice before the run is
/// aborted.
pub const MAX_FAILED_TWICE: usize = 3;

/// The interim log is written after every this many responses.
pub const FLUSH_EVERY: usize = 10;

/// The derivation of each response, in order.
pub open spec fn drvs_of(log: Seq<BuildResponseV1>) -> Seq<Seq<char>> {
    log.map_values(|r: BuildResponseV1| r.drv@)
}

/// How many responses in `log` are for derivation `d`.
pub open spec fn count_drv(log: Seq<BuildResponseV1>, d: Seq<char>) -> nat
    decreases log.len(),
{
    if log.len() == 0 {
        0
    } else {
        count_drv(log.drop_last(), d) + if log.last().drv@ == d {
            1nat
        } else {
            0nat
        }
    }
}

/// How many responses in `log` are first-build failures.
pub open spec fn count_first_failed(log: Seq<BuildResponseV1>) -> nat
    decreases log.len(),
{
    if log.len() == 0 {
        0
    } else {
        count_first_failed(log.drop_last()) + if log.last().status is FirstFailed {
            1nat
        } else {
            0nat
        }
    }
}

proof fn lemma_count_first_failed_bound(log: Seq<BuildResponseV1>)
    ensures
        count_first_failed(log) <= log.len(),
    decreases log.len(),
{
    if log.len() > 0 {
        lemma_count_first_failed_bound(log.drop_last());
    }
}

proof fn lemma_count_push(log: Seq<BuildResponseV1>, r: BuildResponseV1, d: Seq<char>)
    ensures
        count_drv(log.push(r), d) == count_drv(log, d) + if r.drv@ == d {
            1nat
        } else {
            0nat
        },
{
    assert(log.push(r).drop_last() =~= log);
}

proof fn lemma_count_append(a: Seq<BuildResponseV1>, b: Seq<BuildResponseV1>, d: Seq<char>)
    ensures
        count_drv(a + b, d) == count_drv(a, d) + count_drv(b, d),
    decreases b.len(),
{
    if b.len() > 0 {
        lemma_count_append(a, b.drop_last(), d);
        assert((a + b).drop_last() =~= a + b.drop_last());
    } else {
        assert(a + b =~= a);
    }
}

proof fn lemma_count_absent(log: Seq<BuildResponseV1>, d: Seq<char>)
    requires
        forall|i: int| 0 <= i < log.len() ==> (#[trigger] log[i]).drv@ != d,
    ensures
        count_drv(log, d) == 0,
    decreases log.len(),
{
    if log.len() > 0 {
        lemma_count_absent(log.drop_last(), d);
    }
}

/// What the caller is to do after a response.
#[derive(PartialEq, Eq, Debug, Clone)]
pub struct Reaction {
    /// Write the accumulated log now.
    pub flush: bool,
    /// Put this derivation back on the main queue for another try.
    pub requeue: Option<String>,
    /// Stop the run: too many derivations failed their first build twice.
    pub abort: bool,
    /// Report progress: final results so far, of how many to build.
    pub progress: Option<(usize, usize)>,
}

/// The coordinator's account of a run: the log so far, the derivations not
/// yet settled, and those already retried once.
pub struct Coordinator {
    results: Vec<BuildResponseV1>,
    prior_len: usize,
    pending: Vec<String>,
    retried: Vec<String>,
    failed_twice: usize,
    since_flush: usize,
    to_build_len: usize,
    planned: Ghost<Seq<Seq<char>>>,
}

impl Coordinator {
    /// The log: responses carried from an earlier run, then this run's.
    pub closed spec fn log(&self) -> Seq<BuildResponseV1> {
        self.results@
    }

    /// How many entries at the head of the log came from an earlier run.
    pub closed spec fn prior_len(&self) -> nat {
        self.prior_len as nat
    }

    /// This run's responses.
    pub open spec fn fresh(&self) -> Seq<BuildResponseV1> {
        self.log().skip(self.prior_len() as int)
    }

    /// The derivations this run set out to build.
    pub closed spec fn planned(&self) -> Seq<Seq<char>> {
        self.planned@
    }

    /// The derivations without a final response yet.
    pub closed spec fn pending(&self) -> Seq<Seq<char>> {
        views(self.pending@)
    }

    /// The derivations put back on the queue after a first failed build.
    pub closed spec fn retried(&self) -> Seq<Seq<char>> {
        views(self.retried@)
    }

    /// How many derivations failed their first build on the retry too.
    pub closed spec fn failed_twice(&self) -> nat {
        self.failed_twice as nat
    }

    /// Responses taken since the log was last written.
    pub closed spec fn since_flush(&self) -> nat {
        self.since_flush as nat
    }

    pub closed spec fn wf(&self) -> bool {
        &&& self.prior_len <= self.results@.len()
        &&& self.to_build_len == self.planned@.len()
        &&& self.pending().no_duplicates()
        &&& self.since_flush < FLUSH_EVERY
        &&& self.failed_twice == count_first_failed(self.fresh())
        &&& forall|x: Seq<char>| #[trigger] self.pending().contains(x) ==> self.planned@.contains(x)
        &&& forall|d: Seq<char>| #[trigger] self.planned@.contains(d) ==> {
            &&& self.pending().contains(d) ==> count_drv(self.fresh(), d) == 0
            &&& !self.pending().contains(d) ==> count_drv(self.fresh(), d) == 1
        }
        &&& forall|i: int| 0 <= i < self.fresh().len() ==> self.planned@.contains(
            (#[trigger] self.fresh()[i]).drv@,
        )
        &&& forall|i: int| 0 <= i < self.prior_len ==> !self.planned@.contains(
            (#[trigger] self.results@[i]).drv@,
        )
        &&& forall|i: int| 0 <= i < self.fresh().len() ==> ((#[trigger] self.fresh()[i]).status
            is FirstFailed ==> self.retried().contains(self.fresh()[i].drv@))
    }
}


/// Whether `d` is one of `v`'s strings.
pub fn contains_str(v: &Vec<String>, d: &String) -> (r: bool)
    ensures
        r <==> views(v@).contains(d@),
{
    let mut i: usize = 0;
    while i < v.len()
        invariant
            i <= v@.len(),
            forall|k: int| 0 <= k < i ==> v@[k]@ != d@,
        decreases v@.len() - i,
    {
        if v[i] == *d {
            assert(views(v@)[i as int] == d@);
            return true;
        }
        i = i + 1;
    }
    assert forall|k: int| 0 <= k < views(v@).len() implies views(v@)[k] != d@ by {
        assert(views(v@)[k] == v@[k]@);
    }
    false
}

/// Where `d` stands in `v`, if anywhere.
fn index_of(v: &Vec<String>, d: &String) -> (r: Option<usize>)
    ensures
        r matches Some(i) ==> i < v@.len() && views(v@)[i as int] == d@,
        r is None ==> !views(v@).contains(d@),
{
    let mut i: usize = 0;
    while i < v.len()
        invariant
            i <= v@.len(),
            forall|k: int| 0 <= k < i ==> v@[k]@ != d@,
        decreases v@.len() - i,
    {
        if v[i] == *d {
            return Some(i);
        }
        i = i + 1;
    }
    assert forall|k: int| 0 <= k < views(v@).len() implies views(v@)[k] != d@ by {
        assert(views(v@)[k] == v@[k]@);
    }
    None
}

/// Whether some response of `log` is for `d`.
fn logged(log: &Vec<BuildResponseV1>, d: &String) -> (r: bool)
    ensures
        r <==> drvs_of(log@).contains(d@),
{
    let mut i: usize = 0;
    while i < log.len()
        invariant
            i <= log@.len(),
            forall|k: int| 0 <= k < i ==> log@[k].drv@ != d@,
        decreases log@.len() - i,
    {
        if log[i].drv == *d {
            assert(drvs_of(log@)[i as int] == d@);
            return true;
        }
        i = i + 1;
    }
    assert forall|k: int| 0 <= k < drvs_of(log@).len() implies drvs_of(log@)[k] != d@ by {
        assert(drvs_of(log@)[k] == log@[k].drv@);
    }
    false
}

/// Whether a derivation is to be built in this run: it was instantiated, is
/// not on the skip list, and has no response carried over.
pub open spec fn in_plan(
    to_build: Seq<Seq<char>>,
    skip_list: Seq<Seq<char>>,
    carried: Seq<BuildResponseV1>,
    d: Seq<char>,
) -> bool {
    to_build.contains(d) && !skip_list.contains(d) && !drvs_of(carried).contains(d)
}

impl Coordinator {
    /// Starts a run over `to_build`, less the skip list and anything with a
    /// response already in `results`, which is carried into the log.
    pub fn new(to_build: Vec<String>, skip_list: &Vec<String>, results: Vec<BuildResponseV1>) -> (r:
        Coordinator)
        ensures
            r.wf(),
            r.log() == results@,
            r.prior_len() == results@.len(),
            r.pending() == r.planned(),
            r.planned().no_duplicates(),
            forall|d: Seq<char>| #[trigger]
                r.planned().contains(d) <==> in_plan(views(to_build@), views(skip_list@), results@, d),
            r.retried().len() == 0,
            r.failed_twice() == 0,
            r.since_flush() == 0,
    {
        let mut pending: Vec<String> = Vec::new();
        let mut i: usize = 0;
        while i < to_build.len()
            invariant
                i <= to_build@.len(),
                views(pending@).no_duplicates(),
                forall|x: Seq<char>| #[trigger]
                    views(pending@).contains(x) <==> (views(to_build@.take(i as int)).contains(x)
                        && !views(skip_list@).contains(x) && !drvs_of(results@).contains(x)),
            decreases to_build@.len() - i,
        {
            let d = &to_build[i];
            let keep = !contains_str(skip_list, d) && !logged(&results, d) && !contains_str(
                &pending,
                d,
            );
            let ghost before = views(pending@);
            if keep {
                pending.push(d.clone());
                assert(views(pending@) =~= before.push(d@));
            }
            assert(views(to_build@.take(i + 1)) =~= views(to_build@.take(i as int)).push(d@));
            proof {
                let t0 = views(to_build@.take(i as int));
                assert forall|x: Seq<char>| #[trigger]
                    views(pending@).contains(x) <==> (t0.push(d@).contains(x)
                        && !views(skip_list@).contains(x) && !drvs_of(results@).contains(x)) by {
                    lemma_push_contains(before, d@, x);
                    lemma_push_contains(t0, d@, x);
                }
            }
            i = i + 1;
        }
        assert(to_build@.take(to_build@.len() as int) =~= to_build@);
        let prior_len = results.len();
        let to_build_len = pending.len();
        let ghost planned = views(pending@);
        let r = Coordinator {
            results,
            prior_len,
            pending,
            retried: Vec::new(),
            failed_twice: 0,
            since_flush: 0,
            to_build_len,
            planned: Ghost(planned),
        };
        assert(r.fresh() =~= Seq::<BuildResponseV1>::empty());
        assert(r.retried() =~= Seq::<Seq<char>>::empty());
        assert forall|k: int| 0 <= k < r.prior_len implies !r.planned@.contains(
            (#[trigger] r.results@[k]).drv@,
        ) by {
            assert(drvs_of(r.results@)[k] == r.results@[k].drv@);
        }
        r
    }

    /// The log as it stands.
    pub fn results(&self) -> (r: &Vec<BuildResponseV1>)
        ensures
            r@ == self.log(),
    {
        &self.results
    }

    /// The final log.
    pub fn into_results(self) -> (r: Vec<BuildResponseV1>)
        ensures
            r@ == self.log(),
    {
        self.results
    }

    /// The derivations still to be settled, to fill the work queue with.
    pub fn pending_drvs(&self) -> (r: Vec<String>)
        ensures
            views(r@) == self.pending(),
    {
        let mut r: Vec<String> = Vec::new();
        let mut i: usize = 0;
        while i < self.pending.len()
            invariant
                i <= self.pending@.len(),
                views(r@) == views(self.pending@.take(i as int)),
            decreases self.pending@.len() - i,
        {
            r.push(self.pending[i].clone());
            assert(views(self.pending@.take(i + 1)) =~= views(self.pending@.take(i as int)).push(
                self.pending@[i as int]@,
            ));
            assert(views(r@) =~= views(self.pending@.take(i as int)).push(self.pending@[i as int]@));
            i = i + 1;
        }
        assert(self.pending@.take(self.pending@.len() as int) =~= self.pending@);
        r
    }

    /// Whether every planned derivation has its final response.
    pub fn is_settled(&self) -> (r: bool)
        ensures
            r <==> self.pending().len() == 0,
    {
        self.pending.len() == 0
    }
}


proof fn lemma_remove_distinct(s: Seq<Seq<char>>, i: int)
    requires
        s.no_duplicates(),
        0 <= i < s.len(),
    ensures
        s.remove(i).no_duplicates(),
        !s.remove(i).contains(s[i]),
        forall|x: Seq<char>| x != s[i] ==> (#[trigger] s.remove(i).contains(x) <==> s.contains(x)),
{
    let t = s.remove(i);
    assert forall|a: int, b: int| 0 <= a < b < t.len() implies t[a] != t[b] by {
        let a0 = if a < i { a } else { a + 1 };
        let b0 = if b < i { b } else { b + 1 };
        assert(t[a] == s[a0] && t[b] == s[b0]);
    }
    if t.contains(s[i]) {
        let k = choose|k: int| 0 <= k < t.len() && t[k] == s[i];
        let k0 = if k < i { k } else { k + 1 };
        assert(t[k] == s[k0]);
    }
    assert forall|x: Seq<char>| x != s[i] implies (#[trigger] t.contains(x) <==> s.contains(x)) by {
        if t.contains(x) {
            let k = choose|k: int| 0 <= k < t.len() && t[k] == x;
            let k0 = if k < i { k } else { k + 1 };
            assert(t[k] == s[k0]);
        }
        if s.contains(x) {
            let k = choose|k: int| 0 <= k < s.len() && s[k] == x;
            let k1 = if k < i { k } else { k - 1 };
            assert(t[k1] == s[k]);
        }
    }
}

impl Coordinator {
    /// Takes one worker's response. A first failed build is requeued once;
    /// on its second failure it is final, and when more than
    /// [`MAX_FAILED_TWICE`] derivations have failed twice the run aborts.
    /// Any other status is final. The log is to be written after every
    /// [`FLUSH_EVERY`] responses, and on abort. A response for a derivation
    /// that is not pending is ignored.
    pub fn on_response(&mut self, response: BuildResponseV1) -> (r: Reaction)
        requires
            old(self).wf(),
        ensures
            final(self).wf(),
            final(self).planned() == old(self).planned(),
            final(self).prior_len() == old(self).prior_len(),
            !old(self).pending().contains(response.drv@) ==> (*final(self) == *old(self) && r == (
            Reaction { flush: false, requeue: None, abort: false, progress: None })),
            old(self).pending().contains(response.drv@) ==> {
                let d = response.drv@;
                let first = response.status is FirstFailed;
                let settles = !first || old(self).retried().contains(d);
                &&& final(self).since_flush() == (old(self).since_flush() + 1) % (FLUSH_EVERY as nat)
                &&& r.flush <==> (old(self).since_flush() + 1 == FLUSH_EVERY || r.abort)
                &&& r.abort <==> (settles && first && count_first_failed(final(self).fresh())
                    > MAX_FAILED_TWICE)
                &&& !settles ==> {
                    &&& final(self).log() == old(self).log()
                    &&& final(self).pending() == old(self).pending()
                    &&& final(self).retried() == old(self).retried().push(d)
                    &&& final(self).failed_twice() == old(self).failed_twice()
                    &&& r.requeue matches Some(q) && q@ == d
                    &&& r.progress is None
                }
                &&& settles ==> {
                    &&& final(self).log() == old(self).log().push(response)
                    &&& !final(self).pending().contains(d)
                    &&& final(self).pending().len() + 1 == old(self).pending().len()
                    &&& forall|x: Seq<char>| x != d ==> (#[trigger] final(self).pending().contains(x)
                        <==> old(self).pending().contains(x))
                    &&& final(self).retried() == old(self).retried()
                    &&& r.requeue is None
                }
                &&& (settles && first) ==> final(self).failed_twice() == old(self).failed_twice() + 1
                    && r.progress is None
                &&& !first ==> final(self).failed_twice() == old(self).failed_twice() && r.progress
                    == Some((final(self).fresh().len() as usize, old(self).planned().len() as usize))
            },
    {
        let pos = match index_of(&self.pending, &response.drv) {
            Some(p) => p,
            None => {
                return Reaction { flush: false, requeue: None, abort: false, progress: None };
            },
        };
        let ghost d = response.drv@;
        let ghost old_fresh = self.fresh();
        let ghost old_pending = self.pending();
        let ghost old_retried = self.retried();
        let next = self.since_flush + 1;
        let interim = next == FLUSH_EVERY;
        self.since_flush = if interim {
            0
        } else {
            next
        };
        let first = matches!(response.status, BuildStatus::FirstFailed);
        if first && !contains_str(&self.retried, &response.drv) {
            let again = response.drv.clone();
            self.retried.push(response.drv);
            proof {
                assert(self.retried() =~= old_retried.push(d));
                assert forall|i: int|
                    0 <= i < self.fresh().len() && (#[trigger] self.fresh()[i]).status
                        is FirstFailed implies self.retried().contains(self.fresh()[i].drv@) by {
                    lemma_push_contains(old_retried, d, self.fresh()[i].drv@);
                }
            }
            return Reaction { flush: interim, requeue: Some(again), abort: false, progress: None };
        }
        self.pending.remove(pos);
        self.results.push(response);
        let len = self.results.len();
        proof {
            assert(old_pending[pos as int] == d);
            assert(old_pending.contains(d));
            assert(self.pending() =~= old_pending.remove(pos as int));
            lemma_remove_distinct(old_pending, pos as int);
            assert(self.fresh() =~= old_fresh.push(response));
            assert(self.fresh().drop_last() =~= old_fresh);
            lemma_count_first_failed_bound(old_fresh);
            assert forall|x: Seq<char>| #[trigger] self.planned@.contains(x) implies {
                &&& self.pending().contains(x) ==> count_drv(self.fresh(), x) == 0
                &&& !self.pending().contains(x) ==> count_drv(self.fresh(), x) == 1
            } by {
                lemma_count_push(old_fresh, response, x);
            }
            assert forall|i: int| 0 <= i < self.fresh().len() implies self.planned@.contains(
                (#[trigger] self.fresh()[i]).drv@,
            ) by {
                if i < old_fresh.len() {
                    assert(self.fresh()[i] == old_fresh[i]);
                }
            }
            assert forall|i: int|
                0 <= i < self.fresh().len() && (#[trigger] self.fresh()[i]).status
                    is FirstFailed implies self.retried().contains(self.fresh()[i].drv@) by {
                if i < old_fresh.len() {
                    assert(self.fresh()[i] == old_fresh[i]);
                }
            }
            assert forall|i: int| 0 <= i < self.prior_len implies !self.planned@.contains(
                (#[trigger] self.results@[i]).drv@,
            ) by {
                assert(self.results@[i] == old(self).results@[i]);
            }
        }
        if first {
            self.failed_twice = self.failed_twice + 1;
            let abort = self.failed_twice > MAX_FAILED_TWICE;
            Reaction { flush: interim || abort, requeue: None, abort, progress: None }
        } else {
            Reaction {
                flush: interim,
                requeue: None,
                abort: false,
                progress: Some((len - self.prior_len, self.to_build_len)),
            }
        }
    }
}

/// At every point of a run, the log holds exactly one response for each
/// planned derivation that is settled and none for one still pending; this
/// run's responses are all for planned derivations; a first-build failure is
/// only logged for a derivation that was retried once; and the count of
/// derivations that failed twice is the number of such entries.
pub proof fn log_accounting(c: &Coordinator)
    requires
        c.wf(),
    ensures
        forall|d: Seq<char>| #[trigger]
            c.planned().contains(d) ==> count_drv(c.log(), d) == (if c.pending().contains(d) {
                0nat
            } else {
                1nat
            }),
        forall|i: int|
            c.prior_len() <= i < c.log().len() ==> c.planned().contains((#[trigger] c.log()[i]).drv@),
        forall|i: int|
            c.prior_len() <= i < c.log().len() && (#[trigger] c.log()[i]).status is FirstFailed
                ==> c.retried().contains(c.log()[i].drv@),
        c.failed_twice() == count_first_failed(c.fresh()),
{
    let p = c.prior_len() as int;
    let log = c.log();
    assert(log =~= log.take(p) + c.fresh());
    assert forall|d: Seq<char>| #[trigger] c.planned().contains(d) implies count_drv(log, d) == (
    if c.pending().contains(d) {
        0nat
    } else {
        1nat
    }) by {
        assert forall|i: int| 0 <= i < log.take(p).len() implies (#[trigger] log.take(p)[i]).drv@
            != d by {
            assert(log.take(p)[i] == c.results@[i]);
        }
        lemma_count_absent(log.take(p), d);
        lemma_count_append(log.take(p), c.fresh(), d);
    }
    assert forall|i: int| c.prior_len() <= i < c.log().len() implies c.planned().contains(
        (#[trigger] c.log()[i]).drv@,
    ) by {
        assert(c.fresh()[i - p] == log[i]);
    }
    assert forall|i: int|
        c.prior_len() <= i < c.log().len() && (#[trigger] c.log()[i]).status
            is FirstFailed implies c.retried().contains(c.log()[i].drv@) by {
        assert(c.fresh()[i - p] == log[i]);
    }
}

/// The log of a settled run holds exactly one response for each derivation
/// that the run set out to build.
pub proof fn settled_log_is_complete(c: &Coordinator)
    requires
        c.wf(),
        c.pending().len() == 0,
    ensures
        forall|d: Seq<char>| #[trigger] c.planned().contains(d) ==> count_drv(c.log(), d) == 1,
{
    log_accounting(c);
    assert forall|d: Seq<char>| #[trigger] c.planned().contains(d) implies count_drv(c.log(), d) == 1 by {
        assert(!c.pending().contains(d));
    }
}

/// How many workers run: as many jobs as fit in the cores.
pub fn worker_count(max_cores: u16, max_cores_per_job: u16) -> (r: u16)
    requires
        max_cores_per_job > 0,
    ensures
        r == max_cores / max_cores_per_job,
{
    max_cores / max_cores_per_job
}

/// A worker's scratch directory and the two garbage-collector roots it
/// reuses: one for the first build, one for captured check outputs.
pub struct WorkerPaths {
    pub dir: String,
    pub gc_root_a: String,
    pub gc_root_check: String,
}

/// The scratch paths of worker `thread_id` under `tmpdir`.
pub fn worker_paths(tmpdir: &str, thread_id: u16) -> (r: WorkerPaths)
    ensures
        r.dir@ == join_path(tmpdir@, "thread-"@ + dec_of(thread_id as nat)),
        r.gc_root_a@ == join_path(r.dir@, "buildA"@),
        r.gc_root_check@ == join_path(r.dir@, "check"@),
{
    let mut name = "thread-".to_string();
    name.append(decimal(thread_id as u64).as_str());
    let dir = join(tmpdir, name.as_str());
    let gc_root_a = join(dir.as_str(), "buildA");
    let gc_root_check = join(dir.as_str(), "check");
    WorkerPaths { dir, gc_root_a, gc_root_check }
}


/// What the run does once a pass of workers has finished.
#[derive(PartialEq, Eq, Structural, Debug, Clone, Copy)]
pub enum NextPass {
    /// Nothing is left to run.
    Stop,
    /// Run another pass as before: derivations were put back on the main
    /// queue after the last workers had left it.
    Again,
    /// Move the slow queue onto the main queue and run it with the longer
    /// timeout of [`slow_timeout`].
    Slow,
}

/// Decides the next pass: none once every derivation is settled, the same
/// again while the main queue holds work, then the slow queue, then none.
pub fn next_pass(settled: bool, main_empty: bool, slow_empty: bool) -> (r: NextPass)
    ensures
        settled ==> r == NextPass::Stop,
        !settled && !main_empty ==> r == NextPass::Again,
        !settled && main_empty && !slow_empty ==> r == NextPass::Slow,
        !settled && main_empty && slow_empty ==> r == NextPass::Stop,
{
    if settled {
        NextPass::Stop
    } else if !main_empty {
        NextPass::Again
    } else if !slow_empty {
        NextPass::Slow
    } else {
        NextPass::Stop
    }
}

} // verus!
