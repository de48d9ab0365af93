//! The diff driver's naming and command lines: where the two archives are
//! restored, how their timestamps are levelled, and how the diff tool is run.
use vstd::prelude::*;
use crate::cas::ContentAddressedStorage;
use crate::text::{join, views};

verus! {

/// Diffs pairs of archives, storing each result in a content-addressed
/// store.
#[derive(Clone)]
pub struct Diffoscope {
    storage: ContentAddressedStorage,
}

impl Diffoscope {
    pub closed spec fn storage_root(&self) -> Seq<char> {
        self.storage.root_view()
    }

    pub fn new(storage: ContentAddressedStorage) -> (r: Diffoscope)
        ensures
            r.storage_root() == storage.root_view(),
    {
        Diffoscope { storage }
    }

    /// The store the diffs go to.
    pub fn storage(&self) -> (r: &ContentAddressedStorage)
        ensures
            r.root_view() == self.storage_root(),
    {
        &self.storage
    }

    /// The paths, relative to the scratch directory, at which the two sides
    /// named `name` are restored: `<name>/A` and `<name>/B`.
    pub fn sides(name: &str) -> (r: (String, String))
        requires
            !name@.contains('/'),
        ensures
            r.0@ == (if name@.len() == 0 { "A"@ } else { name@ + "/A"@ }),
            r.1@ == (if name@.len() == 0 { "B"@ } else { name@ + "/B"@ }),
    {
        proof {
            reveal_strlit("A");
            reveal_strlit("B");
            assert(!("A"@.len() > 0 && "A"@[0] == '/'));
            assert(!("B"@.len() > 0 && "B"@[0] == '/'));
            if name@.len() > 0 {
                assert(name@[name@.len() - 1] != '/');
            }
        }
        let a = join(name, "A");
        let b = join(name, "B");
        proof {
            reveal_strlit("/A");
            reveal_strlit("/B");
            reveal_strlit("A");
            reveal_strlit("B");
            if name@.len() > 0 {
                assert(a@ =~= name@ + "/A"@);
                assert(b@ =~= name@ + "/B"@);
            }
        }
        (a, b)
    }
}

/// The command line that restores an archive read from its input at `dest`.
pub fn restore_command(dest: &str) -> (r: Vec<String>)
    ensures
        views(r@) == seq!["nix-store"@, "--restore"@, dest@],
{
    let r = vec!["nix-store".to_string(), "--restore".to_string(), dest.to_string()];
    assert(views(r@) =~= seq!["nix-store"@, "--restore"@, dest@]);
    r
}

/// The command line that sets the time of `path` itself (not what a link
/// points to) to one second after the epoch.
pub fn touch_command(path: &str) -> (r: Vec<String>)
    ensures
        views(r@) == seq!["touch"@, "--date"@, "@1"@, "--no-dereference"@, path@],
{
    let r = vec![
        "touch".to_string(),
        "--date".to_string(),
        "@1".to_string(),
        "--no-dereference".to_string(),
        path.to_string(),
    ];
    assert(views(r@) =~= seq!["touch"@, "--date"@, "@1"@, "--no-dereference"@, path@]);
    r
}

/// The command line that diffs the trees at `a` and `b`, writing HTML to
/// its output.
pub fn diff_command(a: &str, b: &str) -> (r: Vec<String>)
    ensures
        views(r@) == seq!["diffoscope"@, "--html"@, "-"@, a@, b@],
{
    let r = vec![
        "diffoscope".to_string(),
        "--html".to_string(),
        "-".to_string(),
        a.to_string(),
        b.to_string(),
    ];
    assert(views(r@) =~= seq!["diffoscope"@, "--html"@, "-"@, a@, b@]);
    r
}

} // verus!
