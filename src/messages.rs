//! The shapes of build requests and build responses, as they appear in the
//! build log.
use vstd::prelude::*;
use crate::text::{is_hex_digest, str_eq};

verus! {

/// A coarse category of build targets, mapped on this side to a fixed file.
#[derive(PartialEq, Eq, Structural, Debug, Clone, Copy, Hash)]
pub enum Subset {
    Nixpkgs,
    NixOSReleaseCombined,
}

/// The file, relative to the package repository's root, that a subset
/// evaluates.
pub open spec fn subset_file(s: Subset) -> Seq<char> {
    match s {
        Subset::Nixpkgs => "./default.nix"@,
        Subset::NixOSReleaseCombined => "./nixos/release-combined.nix"@,
    }
}

impl Subset {
    /// The file that this subset evaluates.
    pub fn path(&self) -> (r: &'static str)
        ensures
            r@ == subset_file(*self),
    {
        match self {
            Subset::Nixpkgs => "./default.nix",
            Subset::NixOSReleaseCombined => "./nixos/release-combined.nix",
        }
    }
}

/// A dotted attribute path, one segment per element:
/// `nixos.iso_minimal.x86_64-linux` is `["nixos", "iso_minimal", "x86_64-linux"]`.
pub type Attr = Vec<String>;

/// `None` asks for every attribute; a list asks for those attributes only.
pub type Attrs = Option<Vec<Attr>>;

pub type Sha256Sum = String;

pub type UploadURL = String;

/// A request to check the builds of one revision of the package repository.
#[derive(Debug, Clone)]
pub enum BuildRequest {
    V1(BuildRequestV1),
}

#[derive(Debug, Clone)]
pub struct BuildRequestV1 {
    /// The revision of the package repository to build.
    pub nixpkgs_revision: String,
    /// The SHA-256 of that revision's source tarball.
    pub nixpkgs_sha256sum: String,
    /// Where results were meant to be sent.
    pub result_url: String,
    /// The subsets to build, each at most once, with their attributes.
    pub subsets: Vec<(Subset, Attrs)>,
}

/// No subset occurs twice.
pub open spec fn subsets_distinct(subsets: Seq<(Subset, Attrs)>) -> bool {
    forall|i: int, j: int| 0 <= i < j < subsets.len() ==> (#[trigger] subsets[i]).0 != (#[trigger] subsets[j]).0
}

impl BuildRequestV1 {
    /// Each subset is asked for at most once.
    pub open spec fn wf(&self) -> bool {
        subsets_distinct(self.subsets@)
    }
}

impl BuildRequest {
    /// The revision the request is for.
    pub fn revision(&self) -> (r: &String)
        ensures
            r@ == revision_of(*self),
    {
        match self {
            BuildRequest::V1(req) => &req.nixpkgs_revision,
        }
    }
}

pub open spec fn revision_of(r: BuildRequest) -> Seq<char> {
    match r {
        BuildRequest::V1(req) => req.nixpkgs_revision@,
    }
}

/// One output's pair of digests: the declared output's archive and the
/// check build's archive.
pub type HashPair = (Sha256Sum, Sha256Sum);

/// The view of one entry of [`Hashes`]: output name, then the two digests.
pub type HashEntry = (Seq<char>, Seq<char>, Seq<char>);

/// Digests of the two archives of each output that differed, keyed by
/// output name, in order of insertion, each name at most once.
#[derive(Debug, Clone, PartialEq)]
pub struct Hashes {
    entries: Vec<(String, HashPair)>,
}

pub open spec fn entry_view(e: (String, HashPair)) -> HashEntry {
    (e.0@, e.1.0@, e.1.1@)
}

/// No output name occurs twice.
pub open spec fn keys_distinct(s: Seq<HashEntry>) -> bool {
    forall|i: int, j: int| 0 <= i < j < s.len() ==> (#[trigger] s[i]).0 != (#[trigger] s[j]).0
}

/// Every digest is sixty-four lowercase hex digits.
pub open spec fn digests_well_formed(s: Seq<HashEntry>) -> bool {
    forall|i: int| 0 <= i < s.len() ==> is_hex_digest((#[trigger] s[i]).1) && is_hex_digest(s[i].2)
}

impl View for Hashes {
    type V = Seq<HashEntry>;

    closed spec fn view(&self) -> Seq<HashEntry> {
        self.entries@.map_values(|e: (String, HashPair)| entry_view(e))
    }
}

impl Hashes {
    pub open spec fn wf(&self) -> bool {
        keys_distinct(self@)
    }

    pub fn new() -> (r: Hashes)
        ensures
            r@ == Seq::<HashEntry>::empty(),
            r.wf(),
    {
        Hashes { entries: Vec::new() }
    }

    pub fn len(&self) -> (r: usize)
        ensures
            r == self@.len(),
    {
        self.entries.len()
    }

    pub fn is_empty(&self) -> (r: bool)
        ensures
            r <==> self@.len() == 0,
    {
        self.entries.len() == 0
    }

    /// The entries, in order of insertion.
    pub fn entries(&self) -> (r: &Vec<(String, HashPair)>)
        ensures
            r@.map_values(|e: (String, HashPair)| entry_view(e)) == self@,
    {
        &self.entries
    }

    /// The position of `output`'s entry, if it has one.
    pub fn position(&self, output: &str) -> (r: Option<usize>)
        ensures
            r matches Some(i) ==> i < self@.len() && self@[i as int].0 == output@,
            r is None ==> forall|i: int| 0 <= i < self@.len() ==> (#[trigger] self@[i]).0 != output@,
    {
        let mut i: usize = 0;
        while i < self.entries.len()
            invariant
                i <= self@.len(),
                self@.len() == self.entries@.len(),
                forall|k: int| 0 <= k < i ==> (#[trigger] self@[k]).0 != output@,
            decreases self.entries@.len() - i,
        {
            assert(self@[i as int] == entry_view(self.entries@[i as int]));
            if str_eq(self.entries[i].0.as_str(), output) {
                return Some(i);
            }
            i = i + 1;
        }
        None
    }

    /// The pair recorded for `output`.
    pub fn get(&self, output: &str) -> (r: Option<&HashPair>)
        ensures
            r matches Some(p) ==> exists|i: int| 0 <= i < self@.len() && (#[trigger] self@[i]) == (output@, p.0@, p.1@),
            r is None ==> forall|i: int| 0 <= i < self@.len() ==> (#[trigger] self@[i]).0 != output@,
    {
        match self.position(output) {
            Some(i) => {
                assert(self@[i as int] == entry_view(self.entries@[i as int]));
                Some(&self.entries[i].1)
            },
            None => None,
        }
    }

    /// Records `pair` for `output`, replacing an earlier pair for the same
    /// output in place.
    pub fn insert(&mut self, output: String, pair: HashPair)
        requires
            old(self).wf(),
        ensures
            final(self).wf(),
            forall|i: int| 0 <= i < old(self)@.len() && (#[trigger] old(self)@[i]).0 == output@
                ==> final(self)@ == old(self)@.update(i, (output@, pair.0@, pair.1@)),
            (forall|i: int| 0 <= i < old(self)@.len() ==> (#[trigger] old(self)@[i]).0 != output@)
                ==> final(self)@ == old(self)@.push((output@, pair.0@, pair.1@)),
    {
        let ghost e = (output@, pair.0@, pair.1@);
        match self.position(output.as_str()) {
            Some(i) => {
                self.entries.set(i, (output, pair));
                assert(self@ =~= old(self)@.update(i as int, e));
                assert forall|a: int, b: int| 0 <= a < b < self@.len() implies (#[trigger] self@[a]).0
                    != (#[trigger] self@[b]).0 by {
                    if a != i && b != i {
                        assert(self@[a] == old(self)@[a] && self@[b] == old(self)@[b]);
                    } else if a == i {
                        assert(self@[b] == old(self)@[b]);
                        assert(old(self)@[a].0 == e.0);
                    } else {
                        assert(self@[a] == old(self)@[a]);
                        assert(old(self)@[b].0 == e.0);
                    }
                }
                assert(forall|j: int| 0 <= j < old(self)@.len() && (#[trigger] old(self)@[j]).0 == output@
                    ==> j == i);
            },
            None => {
                self.entries.push((output, pair));
                assert(self@ =~= old(self)@.push(e));
            },
        }
    }
}

/// The outcome of checking one derivation.
///
/// |                | build  | check build | has `.check` output? |
/// |----------------|--------|-------------|----------------------|
/// | first-failed   | failed | n/a         | n/a                  |
/// | second-failed  | ok     | failed      | no                   |
/// | unreproducible | ok     | failed      | yes                  |
/// | reproducible   | ok     | ok          | n/a                  |
#[derive(Debug, Clone, PartialEq)]
pub enum BuildStatus {
    FirstFailed,
    SecondFailed,
    Unreproducible(Hashes),
    Reproducible,
}

/// The outcome of checking one derivation, for one request.
#[derive(Debug, Clone)]
pub enum BuildResponse {
    V1(BuildResponseV1),
}

#[derive(Debug, Clone)]
pub struct BuildResponseV1 {
    /// The request that caused the check.
    pub request: BuildRequest,
    /// The derivation checked, e.g. `/nix/store/<hash>-<name>.drv`.
    pub drv: String,
    /// What the check found.
    pub status: BuildStatus,
}

/// Upload addresses offered for digests, keyed by digest; a digest that was
/// already uploaded gets none.
#[derive(Debug, Clone)]
pub enum BuildUploadTokens {
    V1(BuildUploadTokensV1),
}

pub type BuildUploadTokensV1 = Vec<(Sha256Sum, UploadURL)>;

} // verus!
