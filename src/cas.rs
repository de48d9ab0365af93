//! The content-addressed store: a directory whose files are named by the
//! lowercase hex SHA-256 of their contents.
//!
//! The filesystem work (scratch file, writes, rename, existence probes) is
//! done by the caller; this module decides names and carries the digest of
//! the bytes as they stream past.
use vstd::prelude::*;
use crate::digest::{sha256_of, sha256_input, sha256_new, sha256_update, sha256_finish, Sha256State};
use crate::text::{hex_of, hex_lower, is_hex_digest, join, join_path, lemma_hex_of_digest};

verus! {

/// The identifier that ingesting `b` yields.
pub open spec fn ingest_id(b: Seq<u8>) -> Seq<char> {
    hex_of(sha256_of(b))
}

/// Where the file named `id` lives under the store's `root`.
pub open spec fn cas_path(root: Seq<char>, id: Seq<char>) -> Seq<char> {
    join_path(root, id)
}

/// The identifier and path that ingesting `data` into the store at `root`
/// yields.
pub open spec fn ingested_as(root: Seq<char>, data: Seq<u8>) -> (Seq<char>, Seq<char>) {
    (ingest_id(data), cas_path(root, ingest_id(data)))
}

/// What looking up `id` in the store at `root` finds, given whether its file
/// is present: the identifier and the file's path.
pub open spec fn lookup_of(root: Seq<char>, id: Seq<char>, present: bool) -> Option<(Seq<char>, Seq<char>)> {
    if present {
        Some((id, cas_path(root, id)))
    } else {
        None
    }
}

/// The bytes of the chunks, in order.
pub open spec fn concat_chunks(chunks: Seq<Vec<u8>>) -> Seq<u8>
    decreases chunks.len(),
{
    if chunks.len() == 0 {
        Seq::empty()
    } else {
        concat_chunks(chunks.drop_last()) + chunks.last()@
    }
}

/// Looking up the identifier that ingesting `data` gave, once its file is
/// in place, finds that same identifier at the path that ingesting wrote.
pub proof fn lookup_after_ingest(root: Seq<char>, data: Seq<u8>)
    ensures
        lookup_of(root, ingested_as(root, data).0, true) == Some(ingested_as(root, data)),
{
}

/// Ingesting the same bytes twice, however the stream was cut into reads,
/// yields the same identifier and the same path, so the second ingestion
/// replaces the first file with one of the same name.
pub proof fn ingest_is_idempotent(root: Seq<char>, first: Seq<Vec<u8>>, second: Seq<Vec<u8>>)
    requires
        concat_chunks(first) == concat_chunks(second),
    ensures
        ingested_as(root, concat_chunks(first)) == ingested_as(root, concat_chunks(second)),
{
}

#[derive(Clone)]
pub struct ContentAddressedStorage {
    root: String,
}

/// A file of the store: its identifier and its path.
pub struct ID {
    id: String,
    path: String,
}

impl ID {
    pub closed spec fn id_view(&self) -> Seq<char> {
        self.id@
    }

    pub closed spec fn path_view(&self) -> Seq<char> {
        self.path@
    }

    pub fn id(&self) -> (r: &str)
        ensures
            r@ == self.id_view(),
    {
        self.id.as_str()
    }

    /// The path of the file in the store.
    pub fn as_path_buf(&self) -> (r: String)
        ensures
            r@ == self.path_view(),
    {
        self.path.clone()
    }
}

impl ContentAddressedStorage {
    pub closed spec fn root_view(&self) -> Seq<char> {
        self.root@
    }

    pub fn new(root: String) -> (r: ContentAddressedStorage)
        ensures
            r.root_view() == root@,
    {
        ContentAddressedStorage { root }
    }

    pub fn root(&self) -> (r: &str)
        ensures
            r@ == self.root_view(),
    {
        self.root.as_str()
    }

    /// The path at which the file named `id` is (or would be) stored.
    pub fn path_of(&self, id: &str) -> (r: String)
        ensures
            r@ == cas_path(self.root_view(), id@),
    {
        join(self.root.as_str(), id)
    }

    /// Looks up `id`, given whether its path (see [`Self::path_of`]) exists
    /// on disk.
    pub fn str_to_id(&self, id: &str, present: bool) -> (r: Option<ID>)
        ensures
            r is Some <==> present,
            r matches Some(f) ==> lookup_of(self.root_view(), id@, present) == Some((f.id_view(), f.path_view())),
    {
        if present {
            Some(ID { id: id.to_string(), path: self.path_of(id) })
        } else {
            None
        }
    }

    /// The identifier and path of the stream made of `chunks`, read in
    /// that order.
    pub fn from_chunks(&self, chunks: &Vec<Vec<u8>>) -> (r: ID)
        ensures
            (r.id_view(), r.path_view()) == ingested_as(self.root_view(), concat_chunks(chunks@)),
            is_hex_digest(r.id_view()),
    {
        let mut ingest = self.ingest();
        let mut i: usize = 0;
        while i < chunks.len()
            invariant
                i <= chunks@.len(),
                ingest.root_view() == self.root_view(),
                ingest.received() == concat_chunks(chunks@.take(i as int)),
            decreases chunks@.len() - i,
        {
            assert(chunks@.take(i + 1).drop_last() =~= chunks@.take(i as int));
            let event = ReadEvent::Read(chunks[i].clone());
            ingest.step(&event);
            proof {
                if chunks@[i as int]@.len() == 0 {
                    assert(ingest.received() =~= concat_chunks(chunks@.take(i + 1)));
                }
            }
            i = i + 1;
        }
        assert(chunks@.take(chunks@.len() as int) =~= chunks@);
        ingest.finish()
    }

    /// Starts taking a byte stream into the store.
    pub fn ingest(&self) -> (r: Ingest)
        ensures
            r.root_view() == self.root_view(),
            r.received() == Seq::<u8>::empty(),
    {
        Ingest { root: self.root.clone(), hasher: sha256_new() }
    }
}

/// What one read from the source stream gave.
pub enum ReadEvent {
    /// Bytes were read; none means the end of the stream.
    Read(Vec<u8>),
    /// The read was interrupted before any byte came.
    Interrupted,
    /// Any other read error.
    Failed,
}

/// What to do after a read.
#[derive(PartialEq, Eq, Structural, Debug, Clone, Copy)]
pub enum IngestAction {
    /// Write the bytes just read to the scratch file and read on.
    Write,
    /// Read again.
    Retry,
    /// The stream is exhausted: call [`Ingest::finish`] and rename the
    /// scratch file to the returned path.
    Finish,
    /// Give up and surface the read error.
    Abort,
}

/// A byte stream on its way into the store.
pub struct Ingest {
    root: String,
    hasher: Sha256State,
}

impl Ingest {
    pub closed spec fn root_view(&self) -> Seq<char> {
        self.root@
    }

    /// Every byte taken in so far, in order.
    pub closed spec fn received(&self) -> Seq<u8> {
        sha256_input(self.hasher)
    }

    /// Takes in one read's outcome: interrupted reads are retried, other
    /// errors abort, an empty read ends the stream.
    pub fn step(&mut self, event: &ReadEvent) -> (r: IngestAction)
        ensures
            final(self).root_view() == old(self).root_view(),
            match *event {
                ReadEvent::Read(b) => if b@.len() == 0 {
                    r == IngestAction::Finish && final(self).received() == old(self).received()
                } else {
                    r == IngestAction::Write && final(self).received() == old(self).received() + b@
                },
                ReadEvent::Interrupted => r == IngestAction::Retry && final(self).received()
                    == old(self).received(),
                ReadEvent::Failed => r == IngestAction::Abort && final(self).received()
                    == old(self).received(),
            },
    {
        match event {
            ReadEvent::Read(b) => {
                if b.len() == 0 {
                    IngestAction::Finish
                } else {
                    sha256_update(&mut self.hasher, b.as_slice());
                    IngestAction::Write
                }
            },
            ReadEvent::Interrupted => IngestAction::Retry,
            ReadEvent::Failed => IngestAction::Abort,
        }
    }

    /// The identifier of everything received, and the path the scratch file
    /// is to be renamed to.
    pub fn finish(self) -> (r: ID)
        ensures
            (r.id_view(), r.path_view()) == ingested_as(self.root_view(), self.received()),
            is_hex_digest(r.id_view()),
    {
        let digest = sha256_finish(self.hasher);
        let id = hex_lower(digest.as_slice());
        proof {
            lemma_hex_of_digest(digest@);
        }
        let path = join(self.root.as_str(), id.as_str());
        ID { id, path }
    }
}

} // verus!
