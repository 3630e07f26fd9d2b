//! The storage engine and the handoff channel, as the writers see them.
use vstd::prelude::*;
use crate::classify::RecordError;

verus! {

#[verifier::external_type_specification]
#[verifier::external_body]
pub struct ExConnection(rusqlite::Connection);

#[verifier::external_type_specification]
#[verifier::external_body]
pub struct ExTransaction<'conn>(rusqlite::Transaction<'conn>);

#[verifier::external_type_specification]
#[verifier::external_body]
pub struct ExSqlError(rusqlite::Error);

#[verifier::external_type_specification]
#[verifier::external_body]
#[verifier::reject_recursive_types(T)]
pub struct ExReceiver<T>(std::sync::mpsc::Receiver<T>);

/// Why a writer stopped.
#[derive(Debug)]
pub enum StoreError {
    /// The storage engine refused an operation.
    Sql(rusqlite::Error),
    /// A record broke the format its producer guarantees.
    Record(RecordError),
    /// A blob too long for the storage engine's integers.
    Oversized,
}

/// `a + b`, held at the largest `usize`.
pub open spec fn saturating(a: int, b: int) -> int {
    if a + b > usize::MAX {
        usize::MAX as int
    } else {
        a + b
    }
}

/// Lifetime totals of one writer.
#[derive(Debug, Clone, Copy, PartialEq, Eq, Structural)]
pub struct Counters {
    /// Items taken from the channel.
    pub received: usize,
    /// Rows that the storage engine reported as inserted.
    pub inserted: usize,
}

impl Counters {
    /// Both totals at zero.
    pub open spec fn new_spec() -> Counters {
        Counters { received: 0, inserted: 0 }
    }

    /// Both totals at zero.
    pub fn new() -> (r: Counters)
        ensures
            r == Counters::new_spec(),
    {
        Counters { received: 0, inserted: 0 }
    }

    /// Accounts for one received item whose statement changed `affected` rows.
    pub fn record(&mut self, affected: usize)
        ensures
            final(self).received == saturating(old(self).received as int, 1),
            final(self).inserted == saturating(old(self).inserted as int, affected as int),
    {
        if self.received < usize::MAX {
            self.received = self.received + 1;
        }
        if self.inserted <= usize::MAX - affected {
            self.inserted = self.inserted + affected;
        } else {
            self.inserted = usize::MAX;
        }
    }
}

/// Holding at the largest `usize` twice is holding once at the sum.
pub proof fn lemma_saturating_twice(a: int, b: int, c: int)
    requires
        0 <= a <= usize::MAX,
        0 <= b,
        0 <= c,
    ensures
        saturating(saturating(a, b), c) == saturating(a, b + c),
{
}

/// Relies on rusqlite's `Connection::open`: opens or creates the database.
#[verifier::external_body]
pub(crate) fn open(path: &str) -> (r: Result<rusqlite::Connection, rusqlite::Error>) {
    rusqlite::Connection::open(path)
}

/// Relies on rusqlite's `Connection::pragma_update`: sets one pragma.
#[verifier::external_body]
pub(crate) fn set_pragma(conn: &rusqlite::Connection, name: &str, value: &str) -> (r: Result<
    (),
    rusqlite::Error,
>) {
    conn.pragma_update(None, name, value)
}

/// Relies on rusqlite's `Connection::execute_batch`: runs statements with no parameters.
#[verifier::external_body]
pub(crate) fn execute_batch(conn: &rusqlite::Connection, sql: &str) -> (r: Result<
    (),
    rusqlite::Error,
>) {
    conn.execute_batch(sql)
}

/// Relies on rusqlite's `Connection::transaction`: begins a transaction.
#[verifier::external_body]
pub(crate) fn begin(conn: &mut rusqlite::Connection) -> (r: Result<
    rusqlite::Transaction<'_>,
    rusqlite::Error,
>) {
    conn.transaction()
}

/// Relies on rusqlite's `Transaction::commit`: commits and ends a transaction.
#[verifier::external_body]
pub(crate) fn commit(tx: rusqlite::Transaction<'_>) -> (r: Result<(), rusqlite::Error>) {
    tx.commit()
}

/// Relies on rusqlite's `Connection::close`: closes the connection, flushing
/// pending state.
#[verifier::external_body]
pub(crate) fn close(conn: rusqlite::Connection) -> (r: Result<(), rusqlite::Error>) {
    conn.close().map_err(|(_, err)| err)
}

/// Relies on rusqlite's `Connection::execute` (through a transaction): runs one
/// statement whose parameters are text, and returns the number of changed rows.
#[verifier::external_body]
pub(crate) fn execute_text(tx: &rusqlite::Transaction<'_>, sql: &str, params: &[&str]) -> (r:
    Result<usize, rusqlite::Error>) {
    tx.execute(sql, rusqlite::params_from_iter(params.iter()))
}

/// Relies on rusqlite's `Connection::execute` (through a transaction): runs one
/// statement with a key blob, a size and a data blob as its parameters.
#[verifier::external_body]
pub(crate) fn execute_blob(
    tx: &rusqlite::Transaction<'_>,
    sql: &str,
    key: &[u8; 32],
    size: i64,
    data: &[u8],
) -> (r: Result<usize, rusqlite::Error>) {
    tx.execute(sql, (key, size, data))
}

/// Relies on std's `Receiver::recv`: waits for the next item; `None` once every
/// sender is gone and the channel is empty.
#[verifier::external_body]
pub(crate) fn receive<T>(rx: &std::sync::mpsc::Receiver<T>) -> (r: Option<T>) {
    rx.recv().ok()
}

/// Relies on std's `Receiver::try_iter`: takes every item that is queued now,
/// without waiting.
#[verifier::external_body]
pub(crate) fn drain_ready<T>(rx: &std::sync::mpsc::Receiver<T>) -> (r: Vec<T>) {
    rx.try_iter().collect()
}

/// Pragma `p` sets `name` to `value`.
pub open spec fn sets(p: (&str, &str), name: Seq<char>, value: Seq<char>) -> bool {
    p.0@ == name && p.1@ == value
}

/// The pragmas set on every connection: write-ahead logging, and commits that
/// do not wait for the disk.
pub fn store_pragmas() -> (r: Vec<(&'static str, &'static str)>)
    ensures
        r@.len() == 2,
        sets(r@[0], "journal_mode"@, "wal"@),
        sets(r@[1], "synchronous"@, "off"@),
{
    vec![("journal_mode", "wal"), ("synchronous", "off")]
}

/// Opens the database, sets each of `store_pragmas` in order, then applies
/// `schema`. Any failure is the storage engine's.
pub(crate) fn open_store(path: &str, schema: &str) -> (r: Result<rusqlite::Connection, StoreError>)
    ensures
        r is Err ==> r matches Err(StoreError::Sql(_)),
{
    let conn = match open(path) {
        Ok(c) => c,
        Err(e) => {
            return Err(StoreError::Sql(e));
        },
    };
    let pragmas = store_pragmas();
    let mut i: usize = 0;
    while i < pragmas.len()
        invariant
            i <= pragmas@.len(),
        decreases pragmas@.len() - i,
    {
        let (name, value) = pragmas[i];
        if let Err(e) = set_pragma(&conn, name, value) {
            return Err(StoreError::Sql(e));
        }
        i = i + 1;
    }
    if let Err(e) = execute_batch(&conn, schema) {
        return Err(StoreError::Sql(e));
    }
    Ok(conn)
}

} // verus!
