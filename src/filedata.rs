//! The file-content writer: reassembles streamed chunks into blobs and stores
//! each blob once per content hash, compressed when it is large.
use vstd::prelude::*;
use std::collections::HashMap;
use std::io::Write;
use crate::store::{
    begin, close, commit, drain_ready, execute_blob, open_store, receive, saturating, Counters,
    StoreError,
};

verus! {

broadcast use vstd::std_specs::hash::group_hash_axioms;

/// Blobs shorter than this are stored as they are; longer ones compressed.
pub const COMPRESSION_THRESHOLD: usize = 256;

/// The table that holds blobs, keyed by content hash.
pub const FILEDATA_SCHEMA: &'static str = "\
CREATE TABLE IF NOT EXISTS filedata (sha256 BLOB PRIMARY KEY, original_size INTEGER, data BLOB);";

/// Inserts a blob; parameters: content hash, original size, stored bytes.
pub const FILEDATA_INSERT: &'static str = "\
INSERT OR IGNORE INTO filedata (sha256, original_size, data) VALUES (?1, ?2, ?3)";

/// What fast deflate compression makes of `data`.
pub uninterp spec fn deflated(data: Seq<u8>) -> Seq<u8>;

/// A complete blob and its content hash.
pub struct Filedata {
    pub blob: Vec<u8>,
    pub sha256: [u8; 32],
}

/// Per-stream accumulation of chunks until their stream completes.
pub struct Reassembler {
    pending: HashMap<u32, Vec<u8>>,
}

impl Reassembler {
    /// The bytes accumulated so far for each open stream.
    pub closed spec fn view(&self) -> Map<u32, Seq<u8>> {
        Map::new(|k: u32| self.pending@.contains_key(k), |k: u32| self.pending@[k]@)
    }

    /// No open stream.
    pub fn new() -> (r: Reassembler)
        ensures
            r@ == Map::<u32, Seq<u8>>::empty(),
    {
        let r = Reassembler { pending: HashMap::new() };
        assert(r@ =~= Map::<u32, Seq<u8>>::empty());
        r
    }

    /// The number of open streams.
    pub fn open_streams(&self) -> (r: usize)
        ensures
            r == self@.len(),
    {
        assert(self@.dom() =~= self.pending@.dom());
        self.pending.len()
    }

    /// Adds a chunk of stream `id`. On the stream's last chunk the whole blob
    /// leaves the reassembler with the hash `sha256`.
    pub fn push_chunk(&mut self, id: u32, chunk: &[u8], last: bool, sha256: [u8; 32]) -> (r: Option<
        Filedata,
    >)
        ensures
            ({
                let whole = if old(self)@.contains_key(id) {
                    old(self)@[id] + chunk@
                } else {
                    chunk@
                };
                if last {
                    &&& r matches Some(fd) && fd.blob@ == whole && fd.sha256 == sha256
                    &&& final(self)@ == old(self)@.remove(id)
                } else {
                    &&& r is None
                    &&& final(self)@ == old(self)@.insert(id, whole)
                }
            }),
    {
        let mut blob = match self.pending.remove(&id) {
            Some(b) => b,
            None => Vec::new(),
        };
        let ghost prior = blob@;
        let mut k: usize = 0;
        while k < chunk.len()
            invariant
                k <= chunk@.len(),
                blob@ == prior + chunk@.subrange(0, k as int),
            decreases chunk@.len() - k,
        {
            blob.push(chunk[k]);
            k = k + 1;
            assert(blob@ =~= prior + chunk@.subrange(0, k as int));
        }
        assert(chunk@.subrange(0, chunk@.len() as int) =~= chunk@);
        if last {
            assert(self@ =~= old(self)@.remove(id));
            Some(Filedata { blob, sha256 })
        } else {
            self.pending.insert(id, blob);
            assert(self@ =~= old(self)@.insert(id, prior + chunk@));
            None
        }
    }
}

/// Whether a blob of `original_size` bytes is stored compressed.
pub open spec fn compressed_size(original_size: int) -> bool {
    original_size >= COMPRESSION_THRESHOLD
}

/// Whether a stored blob whose original size was `original_size` holds
/// compressed bytes.
pub fn is_stored_compressed(original_size: usize) -> (r: bool)
    ensures
        r == compressed_size(original_size as int),
{
    original_size >= COMPRESSION_THRESHOLD
}

/// The bytes stored for `blob`.
pub open spec fn stored_bytes(blob: Seq<u8>) -> Seq<u8> {
    if compressed_size(blob.len() as int) {
        deflated(blob)
    } else {
        blob
    }
}

/// A blob below the threshold is stored byte for byte, and the stored size
/// tells a reader it is not compressed; a larger one is stored as its deflate
/// stream, and the stored size tells a reader to inflate it.
pub proof fn lemma_stored_form(blob: Seq<u8>)
    ensures
        !compressed_size(blob.len() as int) ==> stored_bytes(blob) == blob,
        compressed_size(blob.len() as int) ==> stored_bytes(blob) == deflated(blob),
{
}

/// Relies on flate2's `DeflateEncoder` at `Compression::fast()`, writing into
/// a `Vec`: the raw deflate stream of `data`. Writing into a `Vec` does not
/// fail, and the encoder fails only on a misused stream, which this is not.
#[verifier::external_body]
fn deflate_fast(data: &[u8]) -> (r: Vec<u8>)
    ensures
        r@ == deflated(data@),
{
    let mut e = flate2::write::DeflateEncoder::new(Vec::new(), flate2::Compression::fast());
    e.write_all(data).and_then(|_| e.finish()).expect("writing into a Vec does not fail")
}

/// The bytes to store for `blob`: itself below the threshold, else its
/// compressed form.
pub fn stored_payload(blob: &Vec<u8>) -> (r: Vec<u8>)
    ensures
        r@ == stored_bytes(blob@),
{
    if blob.len() < COMPRESSION_THRESHOLD {
        blob.clone()
    } else {
        deflate_fast(blob.as_slice())
    }
}

/// The row that stores `fd`: its content hash, its original size and the
/// bytes to store.
pub fn filedata_row(fd: &Filedata) -> (r: ([u8; 32], i64, Vec<u8>))
    requires
        fd.blob@.len() <= i64::MAX,
    ensures
        r.0 == fd.sha256,
        r.1 == fd.blob@.len(),
        r.2@ == stored_bytes(fd.blob@),
{
    (fd.sha256, fd.blob.len() as i64, stored_payload(&fd.blob))
}

/// Stores one blob within `tx` and accounts for it in `counters`, with the
/// row from `filedata_row`. A hash already stored leaves the table as it is.
pub fn insert_filedata(counters: &mut Counters, tx: &rusqlite::Transaction<'_>, fd: &Filedata) -> (r:
    Result<(), StoreError>)
    ensures
        r is Ok ==> final(counters).received == saturating(old(counters).received as int, 1),
        r is Ok ==> final(counters).inserted >= old(counters).inserted,
        r is Err ==> *final(counters) == *old(counters),
        r matches Err(StoreError::Oversized) <==> fd.blob@.len() > i64::MAX,
        r is Err ==> (r matches Err(StoreError::Oversized) || r matches Err(StoreError::Sql(_))),
{
    if fd.blob.len() as u64 > i64::MAX as u64 {
        return Err(StoreError::Oversized);
    }
    let (key, size, data) = filedata_row(fd);
    match execute_blob(tx, FILEDATA_INSERT, &key, size, data.as_slice()) {
        Ok(n) => {
            counters.record(n);
            Ok(())
        },
        Err(e) => Err(StoreError::Sql(e)),
    }
}

/// Stores every blob of `items` within `tx`, in order.
fn insert_all(counters: &mut Counters, tx: &rusqlite::Transaction<'_>, items: &Vec<Filedata>) -> (r:
    Result<(), StoreError>)
    ensures
        r is Ok ==> final(counters).received == saturating(
            old(counters).received as int,
            items@.len() as int,
        ),
        final(counters).received >= old(counters).received,
        final(counters).inserted >= old(counters).inserted,
{
    let mut i: usize = 0;
    while i < items.len()
        invariant
            i <= items@.len(),
            counters.received == saturating(old(counters).received as int, i as int),
            counters.inserted >= old(counters).inserted,
        decreases items@.len() - i,
    {
        proof {
            crate::store::lemma_saturating_twice(old(counters).received as int, i as int, 1);
        }
        insert_filedata(counters, tx, &items[i])?;
        i = i + 1;
    }
    Ok(())
}

/// A writer that owns the database connection and the receiving end of the
/// blob channel.
pub struct Database {
    conn: rusqlite::Connection,
    rx: std::sync::mpsc::Receiver<Filedata>,
    counters: Counters,
}

impl Database {
    /// The writer's totals.
    pub closed spec fn totals(&self) -> Counters {
        self.counters
    }

    /// Opens the database file in write-ahead-log mode with relaxed syncing
    /// and applies the blob schema.
    pub fn new(filename: String, rx: std::sync::mpsc::Receiver<Filedata>) -> (r: Result<
        Database,
        StoreError,
    >)
        ensures
            r matches Ok(db) ==> db.totals() == Counters::new_spec(),
            r is Err ==> r matches Err(StoreError::Sql(_)),
    {
        let conn = open_store(filename.as_str(), FILEDATA_SCHEMA)?;
        Ok(Database { conn, rx, counters: Counters::new() })
    }

    /// The writer's totals.
    pub fn counters(&self) -> (r: Counters)
        ensures
            r == self.totals(),
    {
        self.counters
    }

    /// One batch: waits for a blob, then stores it and every blob queued
    /// behind it in one transaction, and gives how many it stored. `Ok(0)`
    /// once the channel is closed and empty.
    pub fn step(&mut self) -> (r: Result<usize, StoreError>)
        ensures
            r == Ok::<usize, StoreError>(0) ==> final(self).totals() == old(self).totals(),
            r matches Ok(n) ==> final(self).totals().received == saturating(
                old(self).totals().received as int,
                n as int,
            ),
            final(self).totals().received >= old(self).totals().received,
            final(self).totals().inserted >= old(self).totals().inserted,
    {
        match receive(&self.rx) {
            None => Ok(0),
            Some(first) => {
                let tx = match begin(&mut self.conn) {
                    Ok(tx) => tx,
                    Err(e) => {
                        return Err(StoreError::Sql(e));
                    },
                };
                insert_filedata(&mut self.counters, &tx, &first)?;
                let rest = drain_ready(&self.rx);
                insert_all(&mut self.counters, &tx, &rest)?;
                let n = if rest.len() < usize::MAX {
                    rest.len() + 1
                } else {
                    usize::MAX
                };
                proof {
                    crate::store::lemma_saturating_twice(
                        old(self).counters.received as int,
                        1,
                        rest@.len() as int,
                    );
                }
                match commit(tx) {
                    Ok(()) => Ok(n),
                    Err(e) => Err(StoreError::Sql(e)),
                }
            },
        }
    }

    /// Closes the connection, flushing pending state, and hands back the
    /// final totals.
    pub fn close(self) -> (r: Result<Counters, StoreError>)
        ensures
            r matches Ok(c) ==> c == self.totals(),
    {
        let counters = self.counters;
        match close(self.conn) {
            Ok(()) => Ok(counters),
            Err(e) => Err(StoreError::Sql(e)),
        }
    }
}

} // verus!
