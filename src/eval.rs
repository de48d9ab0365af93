//! Instantiation of a build request: the commands that instantiate each
//! subset and list its requisites, the derivations read from that list, and
//! the skip list taken from an earlier run's log.
use vstd::prelude::*;
use crate::check::{drvs_of, in_plan};
use crate::messages::{Attr, Attrs, BuildRequestV1, BuildResponseV1, Subset, subset_file};
use crate::text::{hex_digit, ends_with, has_suffix, join, join_path, lemma_push_contains, lines, lines_of, views};

verus! {

/// A character inside a JSON string: `"` and `\\` and the control
/// characters are escaped, the short forms where JSON has them.
pub open spec fn json_char(c: char) -> Seq<char> {
    if c == '"' {
        seq!['\\', '"']
    } else if c == '\\' {
        seq!['\\', '\\']
    } else if c == '\x08' {
        seq!['\\', 'b']
    } else if c == '\t' {
        seq!['\\', 't']
    } else if c == '\n' {
        seq!['\\', 'n']
    } else if c == '\x0c' {
        seq!['\\', 'f']
    } else if c == '\r' {
        seq!['\\', 'r']
    } else if (c as u32) < 32 {
        seq!['\\', 'u', '0', '0', hex_digit((c as u32) as int / 16), hex_digit((c as u32) as int % 16)]
    } else {
        seq![c]
    }
}

/// The escaped characters of a JSON string, without its quotes.
pub open spec fn json_escaped(s: Seq<char>) -> Seq<char>
    decreases s.len(),
{
    if s.len() == 0 {
        Seq::empty()
    } else {
        json_escaped(s.drop_last()) + json_char(s.last())
    }
}

/// A JSON string.
pub open spec fn json_string(s: Seq<char>) -> Seq<char> {
    seq!['"'] + json_escaped(s) + seq!['"']
}

/// JSON texts separated by commas.
pub open spec fn json_items(items: Seq<Seq<char>>) -> Seq<char>
    decreases items.len(),
{
    if items.len() == 0 {
        Seq::empty()
    } else if items.len() == 1 {
        items[0]
    } else {
        json_items(items.drop_last()) + seq![','] + items.last()
    }
}

/// A JSON array of the given element texts, without whitespace.
pub open spec fn json_array(items: Seq<Seq<char>>) -> Seq<char> {
    seq!['['] + json_items(items) + seq![']']
}

/// The compact JSON text of a list of attribute paths: an array of arrays
/// of strings.
pub open spec fn attrs_json(attrs: Seq<Seq<Seq<char>>>) -> Seq<char> {
    json_array(attrs.map_values(|a: Seq<Seq<char>>| json_array(a.map_values(|s: Seq<char>| json_string(s)))))
}

/// The segments of each attribute path.
pub open spec fn attr_views(attrs: Seq<Attr>) -> Seq<Seq<Seq<char>>> {
    attrs.map_values(|a: Attr| views(a@))
}

/// Relies on `serde_json::to_string`: a list of string lists becomes a
/// compact array of arrays of escaped strings, and the encoding cannot fail,
/// since it fails only for a failing `Serialize` impl or a map with
/// non-string keys.
#[verifier::external_body]
fn encode_attrs(attrs: &Vec<Attr>) -> (r: Result<String, serde_json::Error>)
    ensures
        r is Ok,
        r matches Ok(j) ==> j@ == attrs_json(attr_views(attrs@)),
{
    serde_json::to_string(attrs)
}

/// The attribute paths to evaluate; none means every attribute.
pub open spec fn attrs_or_all(attrs: Attrs) -> Seq<Attr> {
    match attrs {
        Some(a) => a@,
        None => Seq::empty(),
    }
}

/// The command line that instantiates `subset` of the request.
pub open spec fn instantiate_line(
    req: BuildRequestV1,
    subset: Subset,
    json: Seq<char>,
    expression: Seq<char>,
    gc_root: Seq<char>,
) -> Seq<Seq<char>> {
    seq![
        "nix-instantiate"@,
        "-E"@,
        expression,
        "--add-root"@,
        gc_root,
        "--indirect"@,
        "--argstr"@,
        "revision"@,
        req.nixpkgs_revision@,
        "--argstr"@,
        "sha256"@,
        req.nixpkgs_sha256sum@,
        "--argstr"@,
        "subfile"@,
        subset_file(subset),
        "--argstr"@,
        "attrsJSON"@,
        json,
    ]
}

/// The command line that instantiates `subset` with the evaluator
/// `expression`, given the attribute paths already as JSON text, rooting the
/// result at `gc_root`.
pub fn instantiate_command(
    req: &BuildRequestV1,
    subset: Subset,
    attrs_json: &str,
    expression: &str,
    gc_root: &str,
) -> (r: Vec<String>)
    ensures
        views(r@) == instantiate_line(*req, subset, attrs_json@, expression@, gc_root@),
{
    let r = vec![
        "nix-instantiate".to_string(),
        "-E".to_string(),
        expression.to_string(),
        "--add-root".to_string(),
        gc_root.to_string(),
        "--indirect".to_string(),
        "--argstr".to_string(),
        "revision".to_string(),
        req.nixpkgs_revision.clone(),
        "--argstr".to_string(),
        "sha256".to_string(),
        req.nixpkgs_sha256sum.clone(),
        "--argstr".to_string(),
        "subfile".to_string(),
        subset.path().to_string(),
        "--argstr".to_string(),
        "attrsJSON".to_string(),
        attrs_json.to_string(),
    ];
    assert(views(r@) =~= instantiate_line(*req, subset, attrs_json@, expression@, gc_root@));
    r
}

/// The command line that instantiates `subset` for the given attribute paths
/// (none: every attribute).
pub fn instantiate_args(
    req: &BuildRequestV1,
    subset: Subset,
    attrs: &Attrs,
    expression: &str,
    gc_root: &str,
) -> (r: Vec<String>)
    ensures
        views(r@) == instantiate_line(
            *req,
            subset,
            attrs_json(attr_views(attrs_or_all(*attrs))),
            expression@,
            gc_root@,
        ),
{
    let json = match attrs {
        Some(a) => encode_attrs(a),
        None => {
            let none: Vec<Attr> = Vec::new();
            assert(attr_views(none@) =~= attr_views(Seq::<Attr>::empty()));
            encode_attrs(&none)
        },
    };
    match json {
        Ok(j) => instantiate_command(req, subset, j.as_str(), expression, gc_root),
        Err(_) => unreached(),
    }
}

/// The command line that lists everything `root` depends on.
pub fn query_requisites_command(root: &str) -> (r: Vec<String>)
    ensures
        views(r@) == seq!["nix-store"@, "--query"@, "--requisites"@, root@],
{
    let r = vec![
        "nix-store".to_string(),
        "--query".to_string(),
        "--requisites".to_string(),
        root.to_string(),
    ];
    assert(views(r@) =~= seq!["nix-store"@, "--query"@, "--requisites"@, root@]);
    r
}

/// The lines that name derivations (end in `.drv`), in order.
pub open spec fn drv_lines(lines: Seq<Seq<char>>) -> Seq<Seq<char>>
    decreases lines.len(),
{
    if lines.len() == 0 {
        lines
    } else if has_suffix(lines.last(), ".drv"@) {
        drv_lines(lines.drop_last()).push(lines.last())
    } else {
        drv_lines(lines.drop_last())
    }
}

/// Where the evaluator roots what it instantiates, under `tmpdir`.
pub fn eval_root(tmpdir: &str) -> (r: String)
    ensures
        r@ == join_path(tmpdir@, "result.drv"@),
{
    join(tmpdir, "result.drv")
}

/// The derivations among the lines of a requisites listing.
pub open spec fn requisites_of(listing: Seq<char>) -> Seq<Seq<char>> {
    drv_lines(lines_of(listing))
}

/// The lines of a requisites listing that name derivations (end in `.drv`),
/// in order.
pub fn requisite_drvs(listing: &str) -> (r: Vec<String>)
    ensures
        views(r@) == requisites_of(listing@),
{
    let all = lines(listing);
    let mut r: Vec<String> = Vec::new();
    let mut i: usize = 0;
    while i < all.len()
        invariant
            i <= all@.len(),
            views(all@) == lines_of(listing@),
            views(r@) == drv_lines(views(all@).take(i as int)),
        decreases all@.len() - i,
    {
        let ghost before = views(all@).take(i as int);
        assert(views(all@).take(i + 1).drop_last() =~= before);
        assert(views(all@).take(i + 1).last() == all@[i as int]@);
        if ends_with(all[i].as_str(), ".drv") {
            r.push(all[i].clone());
            assert(views(r@) =~= drv_lines(before).push(all@[i as int]@));
        }
        i = i + 1;
    }
    assert(views(all@).take(all@.len() as int) =~= views(all@));
    r
}

/// The build log's file for a revision.
pub open spec fn log_file_name_of(revision: Seq<char>) -> Seq<char> {
    "reproducibility-log-"@ + revision + ".json"@
}

/// The name of the build log's file for `revision`.
pub fn log_file_name(revision: &str) -> (r: String)
    ensures
        r@ == log_file_name_of(revision@),
{
    let mut r = "reproducibility-log-".to_string();
    r.append(revision);
    r.append(".json");
    r
}

/// What is to be built, what an earlier run already settled, and the
/// responses carried over from it.
pub struct JobInstantiation {
    pub to_build: Vec<String>,
    pub skip_list: Vec<String>,
    pub results: Vec<BuildResponseV1>,
}

/// The responses of an earlier log that settle their derivation: all but
/// first-build failures, which are tried again.
pub open spec fn settled(prior: Seq<BuildResponseV1>) -> Seq<BuildResponseV1>
    decreases prior.len(),
{
    if prior.len() == 0 {
        prior
    } else if prior.last().status is FirstFailed {
        settled(prior.drop_last())
    } else {
        settled(prior.drop_last()).push(prior.last())
    }
}

/// Collects the derivations of each subset's requisites listing, each once,
/// and takes the skip list and the carried responses from an earlier log.
pub fn eval(listings: &Vec<String>, prior: Vec<BuildResponseV1>) -> (r: JobInstantiation)
    ensures
        views(r.to_build@).no_duplicates(),
        forall|d: Seq<char>| #[trigger]
            views(r.to_build@).contains(d) <==> exists|k: int|
                0 <= k < listings@.len() && requisites_of(#[trigger] listings@[k]@).contains(d),
        r.results@ == settled(prior@),
        views(r.skip_list@) == drvs_of(settled(prior@)),
{
    let mut to_build: Vec<String> = Vec::new();
    let mut k: usize = 0;
    while k < listings.len()
        invariant
            k <= listings@.len(),
            views(to_build@).no_duplicates(),
            forall|d: Seq<char>| #[trigger]
                views(to_build@).contains(d) <==> exists|j: int|
                    0 <= j < k && requisites_of(#[trigger] listings@[j]@).contains(d),
        decreases listings@.len() - k,
    {
        let drvs = requisite_drvs(listings[k].as_str());
        let mut i: usize = 0;
        while i < drvs.len()
            invariant
                k < listings@.len(),
                i <= drvs@.len(),
                views(drvs@) == requisites_of(listings@[k as int]@),
                views(to_build@).no_duplicates(),
                forall|d: Seq<char>| #[trigger]
                    views(to_build@).contains(d) <==> ((exists|j: int|
                        0 <= j < k && requisites_of(#[trigger] listings@[j]@).contains(d))
                        || views(drvs@).take(i as int).contains(d)),
            decreases drvs@.len() - i,
        {
            let ghost before = views(to_build@);
            let ghost seen = views(drvs@).take(i as int);
            let d = &drvs[i];
            assert(views(drvs@).take(i + 1) =~= seen.push(d@));
            let present = crate::check::contains_str(&to_build, d);
            if !present {
                to_build.push(d.clone());
                assert(views(to_build@) =~= before.push(d@));
            }
            assert forall|x: Seq<char>| #[trigger]
                views(to_build@).contains(x) <==> ((exists|j: int|
                    0 <= j < k && requisites_of(#[trigger] listings@[j]@).contains(x))
                    || seen.push(d@).contains(x)) by {
                lemma_push_contains(before, d@, x);
                lemma_push_contains(seen, d@, x);
            }
            i = i + 1;
        }
        assert(views(drvs@).take(drvs@.len() as int) =~= views(drvs@));
        assert forall|x: Seq<char>| #[trigger]
            views(to_build@).contains(x) <==> exists|j: int|
                0 <= j < k + 1 && requisites_of(#[trigger] listings@[j]@).contains(x) by {
            if views(drvs@).contains(x) {
                assert(requisites_of(listings@[k as int]@).contains(x));
            }
            if exists|j: int| 0 <= j < k + 1 && requisites_of(#[trigger] listings@[j]@).contains(x) {
                let j = choose|j: int| 0 <= j < k + 1 && requisites_of(#[trigger] listings@[j]@).contains(x);
                if j == k {
                    assert(views(drvs@).contains(x));
                }
            }
        }
        k = k + 1;
    }
    let mut results: Vec<BuildResponseV1> = Vec::new();
    let mut skip_list: Vec<String> = Vec::new();
    let mut prior = prior;
    let ghost all = prior@;
    let mut i: usize = 0;
    let n = prior.len();
    while i < n
        invariant
            n == all.len(),
            i <= n,
            prior@.len() == n - i,
            forall|j: int| 0 <= j < prior@.len() ==> prior@[j] == all[j + i],
            results@ == settled(all.take(i as int)),
            views(skip_list@) == drvs_of(results@),
        decreases n - i,
    {
        let ghost before = all.take(i as int);
        assert(all.take(i + 1).drop_last() =~= before);
        let entry = prior.remove(0);
        assert(entry == all[i as int]);
        assert(all.take(i + 1).last() == entry);
        if !matches!(entry.status, crate::messages::BuildStatus::FirstFailed) {
            let ghost rb = results@;
            let ghost sb = views(skip_list@);
            let ghost ed = entry.drv@;
            skip_list.push(entry.drv.clone());
            results.push(entry);
            assert(views(skip_list@) =~= sb.push(ed));
            assert(drvs_of(results@) =~= drvs_of(rb).push(ed));
        }
        i = i + 1;
    }
    assert(all.take(n as int) =~= all);
    JobInstantiation { to_build, skip_list, results }
}

/// Whether an earlier log settled `d`: it holds a response for `d` that is
/// not a first-build failure.
pub open spec fn settled_before(prior: Seq<BuildResponseV1>, d: Seq<char>) -> bool {
    exists|i: int| 0 <= i < prior.len() && (#[trigger] prior[i]).drv@ == d && !(prior[i].status is FirstFailed)
}

proof fn lemma_settled_drvs(prior: Seq<BuildResponseV1>, d: Seq<char>)
    ensures
        drvs_of(settled(prior)).contains(d) <==> settled_before(prior, d),
    decreases prior.len(),
{
    if prior.len() > 0 {
        let rest = prior.drop_last();
        lemma_settled_drvs(rest, d);
        let s = settled(rest);
        let last = prior.last();
        if !(last.status is FirstFailed) {
            assert(drvs_of(settled(prior)) =~= drvs_of(s).push(last.drv@));
            lemma_push_contains(drvs_of(s), last.drv@, d);
        } else {
            assert(settled(prior) == s);
        }
        if settled_before(rest, d) {
            let i = choose|i: int| 0 <= i < rest.len() && (#[trigger] rest[i]).drv@ == d && !(
            rest[i].status is FirstFailed);
            assert(prior[i] == rest[i]);
        }
        if settled_before(prior, d) {
            let i = choose|i: int| 0 <= i < prior.len() && (#[trigger] prior[i]).drv@ == d && !(
            prior[i].status is FirstFailed);
            if i < rest.len() {
                assert(rest[i] == prior[i]);
            }
        }
    } else {
        assert(drvs_of(settled(prior)) =~= Seq::<Seq<char>>::empty());
    }
}

/// A second run over an existing log builds again exactly the instantiated
/// derivations that the log does not settle: those with a response other
/// than a first-build failure are skipped, and those whose only responses
/// are first-build failures are built again.
pub proof fn skip_list_semantics(to_build: Seq<Seq<char>>, prior: Seq<BuildResponseV1>, d: Seq<char>)
    ensures
        in_plan(to_build, drvs_of(settled(prior)), settled(prior), d) <==> (to_build.contains(d)
            && !settled_before(prior, d)),
{
    lemma_settled_drvs(prior, d);
}

} // verus!
