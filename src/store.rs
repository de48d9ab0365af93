//! The package manager's store: the command lines that root, add and export
//! store paths, and the reading of what `add-to-store` prints.
use vstd::prelude::*;
use crate::text::{lines, lines_of, views};

verus! {

#[verifier::external_type_specification]
#[verifier::external_body]
pub struct ExIoError(std::io::Error);

/// Runs the package manager's store commands.
#[derive(Debug, Clone, Copy)]
pub struct Store {}

impl Store {
    pub fn new() -> (r: Store) {
        Store {}
    }

    /// The command line that realises `store_path` and roots it,
    /// indirectly, at `gc_root`.
    pub fn create_gc_root_command(&self, store_path: &str, gc_root: &str) -> (r: Vec<String>)
        ensures
            views(r@) == seq![
                "nix-store"@,
                "--add-root"@,
                gc_root@,
                "--indirect"@,
                "--realise"@,
                store_path@,
            ],
    {
        let r = vec![
            "nix-store".to_string(),
            "--add-root".to_string(),
            gc_root.to_string(),
            "--indirect".to_string(),
            "--realise".to_string(),
            store_path.to_string(),
        ];
        assert(views(r@) =~= seq![
            "nix-store"@,
            "--add-root"@,
            gc_root@,
            "--indirect"@,
            "--realise"@,
            store_path@,
        ]);
        r
    }

    /// The command line that copies `path` into the store.
    pub fn add_to_store_command(&self, path: &str) -> (r: Vec<String>)
        ensures
            views(r@) == seq!["nix"@, "add-to-store"@, path@],
    {
        let r = vec!["nix".to_string(), "add-to-store".to_string(), path.to_string()];
        assert(views(r@) =~= seq!["nix"@, "add-to-store"@, path@]);
        r
    }

    /// The command line that writes the archive of `path` to its output.
    pub fn export_nar_command(&self, path: &str) -> (r: Vec<String>)
        ensures
            views(r@) == seq!["nix"@, "dump-path"@, path@],
    {
        let r = vec!["nix".to_string(), "dump-path".to_string(), path.to_string()];
        assert(views(r@) =~= seq!["nix"@, "dump-path"@, path@]);
        r
    }

    /// The store path that `add-to-store` printed: its output must be
    /// exactly one line, which is the path.
    pub fn added_path(&self, stdout: &str) -> (r: Result<String, AddToStoreError>)
        ensures
            lines_of(stdout@).len() == 1 ==> (r matches Ok(p) && p@ == lines_of(stdout@)[0]),
            lines_of(stdout@).len() != 1 ==> (r matches Err(AddToStoreError::TooManyLines(l))
                && views(l@) == lines_of(stdout@)),
    {
        let mut all = lines(stdout);
        if all.len() != 1 {
            return Err(AddToStoreError::TooManyLines(all));
        }
        match all.pop() {
            Some(p) => Ok(p),
            None => Err(AddToStoreError::TooManyLines(Vec::new())),
        }
    }
}

/// Realising a store path failed.
#[derive(Debug)]
pub enum RealiseError {
    Io(std::io::Error),
    /// The command exited unsuccessfully (`code` is `None` when a signal
    /// ended it).
    Failed { code: Option<i32>, stdout: Vec<u8>, stderr: Vec<u8> },
}

/// Adding a path to the store failed.
#[derive(Debug)]
pub enum AddToStoreError {
    Io(std::io::Error),
    /// The command printed other than exactly one line; these are its lines.
    TooManyLines(Vec<String>),
    Realise(RealiseError),
}

/// Starting an archive export failed.
#[derive(Debug)]
pub enum ExportNarStartError {
    Io(std::io::Error),
}

/// An archive export ended badly.
#[derive(Debug)]
pub enum ExportNarFinishError {
    Io(std::io::Error),
    /// The exporter's exit code and what it wrote to its error output.
    Failed(Option<i32>, String),
}

} // verus!
