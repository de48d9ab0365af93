//! The subsets named on the command line, and the build request's subset
//! map made from them.
use vstd::prelude::*;
use itertools::Itertools;
use crate::messages::{Attr, Attrs, Subset, subsets_distinct};
use crate::text::{lemma_split_nonempty, split, split_on, str_eq, views};

verus! {

/// The subset a command-line name stands for.
pub open spec fn subset_named(name: Seq<char>) -> Option<Subset> {
    if name == "nixpkgs"@ {
        Some(Subset::Nixpkgs)
    } else if name == "nixos"@ {
        Some(Subset::NixOSReleaseCombined)
    } else {
        None
    }
}

/// The attribute path given after the first `:`, split at `.`; none when
/// there is no `:`.
pub open spec fn attr_path_of(spec: Seq<char>) -> Seq<Seq<char>> {
    let pieces = split_on(spec, ':');
    if pieces.len() > 1 {
        split_on(pieces[1], '.')
    } else {
        Seq::empty()
    }
}

/// Reads `subset` or `subset:dotted.attr.path`, where the subset is
/// `nixpkgs` or `nixos`. Text after a second `:` is ignored.
pub fn parse_subset(s: &str) -> (r: Result<(Subset, Attr), &'static str>)
    ensures
        subset_named(split_on(s@, ':')[0]) is None ==> (r matches Err(e) && e@
            == "unknown subset specifier"@),
        subset_named(split_on(s@, ':')[0]) matches Some(sub) ==> (r matches Ok(p) && p.0 == sub
            && views(p.1@) == attr_path_of(s@)),
{
    let comp = split(s, ':');
    proof {
        lemma_split_nonempty(s@, ':');
    }
    let name = comp[0].as_str();
    let subset = if str_eq(name, "nixpkgs") {
        Subset::Nixpkgs
    } else if str_eq(name, "nixos") {
        Subset::NixOSReleaseCombined
    } else {
        return Err("unknown subset specifier");
    };
    assert(views(comp@)[0] == comp@[0]@);
    let attr_path = if comp.len() > 1 {
        assert(views(comp@)[1] == comp@[1]@);
        split(comp[1].as_str(), '.')
    } else {
        Vec::new()
    };
    proof {
        if comp@.len() <= 1 {
            assert(views(attr_path@) =~= Seq::<Seq<char>>::empty());
        }
    }
    Ok((subset, attr_path))
}

/// Whether `subset` is the key of some entry.
pub open spec fn has_subset<T>(entries: Seq<(Subset, T)>, subset: Subset) -> bool {
    exists|i: int| 0 <= i < entries.len() && (#[trigger] entries[i]).0 == subset
}

/// The attribute paths given for `subset`, in order.
pub open spec fn attrs_for(pairs: Seq<(Subset, Attr)>, subset: Subset) -> Seq<Attr>
    decreases pairs.len(),
{
    if pairs.len() == 0 {
        Seq::empty()
    } else if pairs.last().0 == subset {
        attrs_for(pairs.drop_last(), subset).push(pairs.last().1)
    } else {
        attrs_for(pairs.drop_last(), subset)
    }
}

/// Relies on `itertools::Itertools::into_group_map`: each subset once, with
/// the attribute paths given for it in their order; the subsets come in the
/// hash map's order, which is unspecified.
#[verifier::external_body]
fn group_by_subset(pairs: Vec<(Subset, Attr)>) -> (r: Vec<(Subset, Vec<Attr>)>)
    ensures
        forall|i: int, j: int| 0 <= i < j < r@.len() ==> (#[trigger] r@[i]).0 != (#[trigger] r@[j]).0,
        forall|s: Subset| #[trigger] has_subset(r@, s) <==> has_subset(pairs@, s),
        forall|i: int| 0 <= i < r@.len() ==> (#[trigger] r@[i]).1@ == attrs_for(pairs@, r@[i].0),
{
    pairs.into_iter().into_group_map().into_iter().collect()
}

/// Whether one of the paths is empty, which is what naming the bare subset
/// gives.
pub open spec fn has_empty_attr(group: Seq<Attr>) -> bool {
    exists|i: int| 0 <= i < group.len() && (#[trigger] group[i])@.len() == 0
}

fn any_empty(group: &Vec<Attr>) -> (r: bool)
    ensures
        r == has_empty_attr(group@),
{
    let mut i: usize = 0;
    while i < group.len()
        invariant
            i <= group@.len(),
            forall|k: int| 0 <= k < i ==> (#[trigger] group@[k])@.len() != 0,
        decreases group@.len() - i,
    {
        if group[i].len() == 0 {
            return true;
        }
        i = i + 1;
    }
    false
}

/// The request's subset map from the subsets named on the command line:
/// each named subset once, asking for every attribute if it was named bare
/// and otherwise for the attribute paths given with it, in order.
pub fn request_subsets(pairs: Vec<(Subset, Attr)>) -> (r: Vec<(Subset, Attrs)>)
    ensures
        subsets_distinct(r@),
        forall|s: Subset| #[trigger] has_subset(r@, s) <==> has_subset(pairs@, s),
        forall|i: int|
            0 <= i < r@.len() ==> ((#[trigger] r@[i]).1 is None <==> has_empty_attr(
                attrs_for(pairs@, r@[i].0),
            )),
        forall|i: int|
            0 <= i < r@.len() ==> ((#[trigger] r@[i]).1 matches Some(v) ==> v@ == attrs_for(
                pairs@,
                r@[i].0,
            )),
{
    let ghost given = pairs@;
    let mut groups = group_by_subset(pairs);
    let ghost orig = groups@;
    let n = groups.len();
    let mut r: Vec<(Subset, Attrs)> = Vec::new();
    while groups.len() > 0
        invariant
            n == orig.len(),
            groups@.len() <= n,
            groups@ == orig.take(groups@.len() as int),
            r@.len() == n - groups@.len(),
            forall|k: int| 0 <= k < r@.len() ==> (#[trigger] r@[k]).0 == orig[n - 1 - k].0,
            forall|k: int|
                0 <= k < r@.len() ==> ((#[trigger] r@[k]).1 is None <==> has_empty_attr(orig[n - 1 - k].1@)),
            forall|k: int|
                0 <= k < r@.len() ==> ((#[trigger] r@[k]).1 matches Some(v) ==> v@ == orig[n - 1 - k].1@),
        decreases groups@.len(),
    {
        let ghost before = groups@;
        let (subset, group) = groups.pop().unwrap();
        assert((subset, group) == orig[before.len() - 1]);
        let attrs = if any_empty(&group) {
            None
        } else {
            Some(group)
        };
        r.push((subset, attrs));
        assert(groups@ =~= orig.take(groups@.len() as int));
    }
    assert forall|i: int, j: int| 0 <= i < j < r@.len() implies (#[trigger] r@[i]).0 != (
    #[trigger] r@[j]).0 by {
        assert(r@[i].0 == orig[n - 1 - i].0 && r@[j].0 == orig[n - 1 - j].0);
    }
    assert forall|s: Subset| #[trigger] has_subset(r@, s) <==> has_subset(given, s) by {
        assert(has_subset(orig, s) <==> has_subset(given, s));
        if exists|i: int| 0 <= i < orig.len() && (#[trigger] orig[i]).0 == s {
            let i = choose|i: int| 0 <= i < orig.len() && (#[trigger] orig[i]).0 == s;
            assert(r@[n - 1 - i].0 == s);
        }
        if exists|i: int| 0 <= i < r@.len() && (#[trigger] r@[i]).0 == s {
            let i = choose|i: int| 0 <= i < r@.len() && (#[trigger] r@[i]).0 == s;
            assert(orig[n - 1 - i].0 == s);
        }
    }
    r
}

} // verus!
