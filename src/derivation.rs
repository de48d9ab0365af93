//! Derivations as the package manager shows them: a map from output name to
//! a record holding, among other things, the output's store path.
use vstd::prelude::*;
use crate::text::{str_eq};

verus! {

#[verifier::external_type_specification]
#[verifier::external_body]
pub struct ExJsonError(serde_json::Error);

/// One field of an output's record, viewed.
pub type FieldView = (Seq<char>, Seq<char>);

/// One output of a derivation, viewed: its name and its record's fields.
pub type OutputView = (Seq<char>, Seq<FieldView>);

/// A parsed derivation: for each output, the string fields of its record,
/// each output and each field at most once.
#[derive(Debug, Clone)]
pub struct Derivation {
    outputs: Vec<(String, Vec<(String, String)>)>,
}

/// No output is named twice, and no output's record names a field twice.
pub open spec fn names_distinct(outputs: Seq<OutputView>) -> bool {
    &&& forall|i: int, j: int| 0 <= i < j < outputs.len() ==> (#[trigger] outputs[i]).0 != (#[trigger] outputs[j]).0
    &&& forall|k: int|
        0 <= k < outputs.len() ==> forall|i: int, j: int|
            0 <= i < j < (#[trigger] outputs[k]).1.len() ==> (#[trigger] outputs[k].1[i]).0 != (
            #[trigger] outputs[k].1[j]).0
}

pub open spec fn field_views(fields: Seq<(String, String)>) -> Seq<FieldView> {
    fields.map_values(|f: (String, String)| (f.0@, f.1@))
}

/// The value of the first field named `key`.
pub open spec fn field_value(fields: Seq<FieldView>, key: Seq<char>) -> Option<Seq<char>>
    decreases fields.len(),
{
    if fields.len() == 0 {
        None
    } else {
        match field_value(fields.drop_last(), key) {
            Some(v) => Some(v),
            None => if fields.last().0 == key {
                Some(fields.last().1)
            } else {
                None
            },
        }
    }
}

/// The outputs that have a `path` field, with that path, in order.
pub open spec fn output_paths(outputs: Seq<OutputView>) -> Seq<(Seq<char>, Seq<char>)>
    decreases outputs.len(),
{
    if outputs.len() == 0 {
        Seq::empty()
    } else {
        let rest = output_paths(outputs.drop_last());
        match field_value(outputs.last().1, "path"@) {
            Some(p) => rest.push((outputs.last().0, p)),
            None => rest,
        }
    }
}

impl View for Derivation {
    type V = Seq<OutputView>;

    closed spec fn view(&self) -> Seq<OutputView> {
        self.outputs@.map_values(|o: (String, Vec<(String, String)>)| (o.0@, field_views(o.1@)))
    }
}

fn field_lookup(fields: &Vec<(String, String)>, key: &str) -> (r: Option<String>)
    ensures
        r matches Some(v) ==> field_value(field_views(fields@), key@) == Some(v@),
        r is None ==> field_value(field_views(fields@), key@) is None,
{
    let mut i: usize = 0;
    while i < fields.len()
        invariant
            i <= fields@.len(),
            field_value(field_views(fields@.take(i as int)), key@) is None,
        decreases fields@.len() - i,
    {
        assert(field_views(fields@.take(i + 1)).drop_last() =~= field_views(fields@.take(i as int)));
        assert(field_views(fields@.take(i + 1)).last() == (fields@[i as int].0@, fields@[i as int].1@));
        if str_eq(fields[i].0.as_str(), key) {
            proof {
                assert(field_views(fields@.take(i + 1)) =~= field_views(fields@).take(i + 1));
                lemma_field_value_prefix(field_views(fields@), i + 1, key@);
            }
            return Some(fields[i].1.clone());
        }
        i = i + 1;
    }
    assert(fields@.take(fields@.len() as int) =~= fields@);
    None
}

/// A field found in a prefix is the field found in the whole.
proof fn lemma_field_value_prefix(fields: Seq<FieldView>, n: int, key: Seq<char>)
    requires
        0 <= n <= fields.len(),
        field_value(fields.take(n), key) is Some,
    ensures
        field_value(fields, key) == field_value(fields.take(n), key),
    decreases fields.len() - n,
{
    if n < fields.len() {
        assert(fields.take(n + 1).drop_last() =~= fields.take(n));
        lemma_field_value_prefix(fields, n + 1, key);
    } else {
        assert(fields.take(n) =~= fields);
    }
}

impl Derivation {
    /// A derivation with the given outputs, each with its record's string
    /// fields.
    pub fn new(outputs: Vec<(String, Vec<(String, String)>)>) -> (r: Derivation)
        requires
            names_distinct(outputs@.map_values(|o: (String, Vec<(String, String)>)| (o.0@, field_views(o.1@)))),
        ensures
            names_distinct(r@),
            r@ == outputs@.map_values(|o: (String, Vec<(String, String)>)| (o.0@, field_views(o.1@))),
    {
        Derivation { outputs }
    }

    /// The outputs that have a store path, each with that path.
    pub fn outputs(&self) -> (r: Vec<(String, String)>)
        ensures
            r@.map_values(|o: (String, String)| (o.0@, o.1@)) == output_paths(self@),
    {
        let mut r: Vec<(String, String)> = Vec::new();
        let mut i: usize = 0;
        while i < self.outputs.len()
            invariant
                i <= self.outputs@.len(),
                r@.map_values(|o: (String, String)| (o.0@, o.1@)) == output_paths(self@.take(i as int)),
            decreases self.outputs@.len() - i,
        {
            let ghost before = r@.map_values(|o: (String, String)| (o.0@, o.1@));
            assert(self@.take(i + 1).drop_last() =~= self@.take(i as int));
            assert(self@.take(i + 1).last() == self@[i as int]);
            match field_lookup(&self.outputs[i].1, "path") {
                Some(p) => {
                    r.push((self.outputs[i].0.clone(), p));
                    assert(r@.map_values(|o: (String, String)| (o.0@, o.1@)) =~= before.push(
                        (self@[i as int].0, r@.last().1@),
                    ));
                },
                None => {},
            }
            i = i + 1;
        }
        assert(self@.take(self@.len() as int) =~= self@);
        r
    }

    /// The store path of output `name`, if it has one.
    pub fn output_path(&self, name: &str) -> (r: Option<String>)
        ensures
            r matches Some(p) ==> output_paths(self@).contains((name@, p@)),
            r is None ==> forall|i: int| 0 <= i < output_paths(self@).len() ==> (#[trigger] output_paths(self@)[i]).0 != name@,
    {
        let outs = self.outputs();
        let ghost ov = outs@.map_values(|o: (String, String)| (o.0@, o.1@));
        let mut i: usize = 0;
        while i < outs.len()
            invariant
                i <= outs@.len(),
                ov == output_paths(self@),
                ov == outs@.map_values(|o: (String, String)| (o.0@, o.1@)),
                forall|k: int| 0 <= k < i ==> (#[trigger] ov[k]).0 != name@,
            decreases outs@.len() - i,
        {
            assert(ov[i as int] == (outs@[i as int].0@, outs@[i as int].1@));
            if str_eq(outs[i].0.as_str(), name) {
                return Some(outs[i].1.clone());
            }
            i = i + 1;
        }
        None
    }

    /// Picks `drv`'s derivation out of what the package manager showed for
    /// one or more derivations.
    pub fn parse(drv: &str, shown: Vec<(String, Derivation)>) -> (r: Result<Derivation, DerivationParseError>)
        ensures
            (exists|i: int| 0 <= i < shown@.len() && (#[trigger] shown@[i]).0@ == drv@) ==> (r matches Ok(d)
                && exists|i: int| 0 <= i < shown@.len() && (#[trigger] shown@[i]).0@ == drv@ && shown@[i].1 == d),
            (forall|i: int| 0 <= i < shown@.len() ==> (#[trigger] shown@[i]).0@ != drv@) ==> (r matches Err(
                DerivationParseError::NotInResult,
            )),
    {
        let ghost all = shown@;
        let mut candidates = shown;
        let mut i: usize = 0;
        while i < candidates.len()
            invariant
                candidates@ == all,
                all == shown@,
                i <= all.len(),
                forall|k: int| 0 <= k < i ==> all[k].0@ != drv@,
            decreases all.len() - i,
        {
            if str_eq(candidates[i].0.as_str(), drv) {
                let e = candidates.swap_remove(i);
                assert(e == all[i as int]);
                assert(all[i as int].0@ == drv@);
                return Ok(e.1);
            }
            i = i + 1;
        }
        Err(DerivationParseError::NotInResult)
    }
}

/// Reading a derivation failed.
#[derive(Debug)]
pub enum DerivationParseError {
    Io(std::io::Error),
    JsonDecode(serde_json::Error),
    /// The package manager's output had no entry for the derivation.
    NotInResult,
}

} // verus!
