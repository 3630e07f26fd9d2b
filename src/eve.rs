//! The event writer: classifies raw records and stores them in batches.
use vstd::prelude::*;
use vstd::string::*;
use crate::classify::{classifies_as, classify, untyped, Record, RecordError};
use crate::store::{
    begin, commit, close, drain_ready, execute_text, open_store, receive, saturating, Counters,
    StoreError,
};

verus! {

/// The tables that hold events.
pub const EVENT_SCHEMA: &'static str = "\
CREATE TABLE IF NOT EXISTS flow (id INTEGER PRIMARY KEY, src_ip TEXT, src_port INTEGER, \
dest_ip TEXT, dest_port INTEGER, proto TEXT, app_proto TEXT, metadata_json TEXT, \
extra_data_json TEXT);\
CREATE TABLE IF NOT EXISTS alert (flow_id INTEGER, timestamp_us INTEGER, extra_data_json TEXT, \
UNIQUE (flow_id, timestamp_us));\
CREATE TABLE IF NOT EXISTS other_event (flow_id INTEGER, timestamp_us INTEGER, \
event_type TEXT, extra_data_json TEXT, UNIQUE (flow_id, timestamp_us, event_type));";

/// Inserts a flow; parameters: the record, then the stored source and
/// destination addresses. Ports, protocols and nested objects are read from
/// the record by the storage engine.
pub const FLOW_INSERT: &'static str = "\
INSERT OR IGNORE INTO flow (id, src_ip, src_port, dest_ip, dest_port, proto, app_proto, \
metadata_json, extra_data_json) VALUES (?1->>'flow_id', ?2, ?1->>'src_port', ?3, \
?1->>'dest_port', ?1->>'proto', ?1->>'app_proto', ?1->'metadata', ?1->'flow')";

/// Inserts an alert; parameters: the record, then its type tag. The timestamp
/// becomes epoch seconds of its first 19 characters times a million, plus the
/// six digits from its 21st character.
pub const ALERT_INSERT: &'static str = "\
INSERT OR IGNORE INTO alert (flow_id, timestamp_us, extra_data_json) VALUES (?1->>'flow_id', \
(UNIXEPOCH(SUBSTR(?1->>'timestamp', 1, 19)) * 1000000 + SUBSTR(?1->>'timestamp', 21, 6)), \
json_extract(?1, '$.' || ?2))";

/// Inserts any other typed event; parameters: the record, then its type tag.
pub const OTHER_INSERT: &'static str = "\
INSERT OR IGNORE INTO other_event (flow_id, timestamp_us, event_type, extra_data_json) \
VALUES (?1->>'flow_id', (UNIXEPOCH(SUBSTR(?1->>'timestamp', 1, 19)) * 1000000 + \
SUBSTR(?1->>'timestamp', 21, 6)), ?2, json_extract(?1, '$.' || ?2))";

/// `r` holds the statement `sql` with the parameters `params`.
pub open spec fn statement_is(
    r: Option<(&'static str, Vec<&str>)>,
    sql: Seq<char>,
    params: Seq<Seq<char>>,
) -> bool {
    match r {
        Some((q, p)) => q@ == sql && p@.len() == params.len() && forall|i: int|
            0 <= i < params.len() ==> #[trigger] p@[i]@ == params[i],
        None => false,
    }
}

/// The statement and parameters that store `rec`, classified from `buf`;
/// `None` for a record without a type tag.
pub fn event_statement<'a>(buf: &'a str, rec: &'a Record) -> (r: Option<(&'static str, Vec<&'a str>)>)
    ensures
        match rec {
            Record::Untyped => r is None,
            Record::Flow { src_ip, dest_ip } => statement_is(
                r,
                FLOW_INSERT@,
                seq![buf@, src_ip@, dest_ip@],
            ),
            Record::Alert => statement_is(r, ALERT_INSERT@, seq![buf@, "alert"@]),
            Record::Other { event_type } => statement_is(r, OTHER_INSERT@, seq![buf@, event_type@]),
        },
{
    match rec {
        Record::Untyped => None,
        Record::Flow { src_ip, dest_ip } => Some((FLOW_INSERT, vec![buf, src_ip.as_str(), dest_ip.as_str()])),
        Record::Alert => Some((ALERT_INSERT, vec![buf, "alert"])),
        Record::Other { event_type } => Some((OTHER_INSERT, vec![buf, event_type.as_str()])),
    }
}

/// Stores one raw record within `tx` and accounts for it in `counters`.
/// A record without a type tag is received and not inserted; a record that
/// breaks the format stops the writer and is not counted.
pub fn insert_event(counters: &mut Counters, tx: &rusqlite::Transaction<'_>, buf: &str) -> (r:
    Result<(), StoreError>)
    ensures
        untyped(buf.spec_bytes()) ==> r is Ok,
        r is Ok ==> final(counters).received == saturating(old(counters).received as int, 1),
        r is Ok ==> final(counters).inserted >= old(counters).inserted,
        untyped(buf.spec_bytes()) ==> final(counters).inserted == old(counters).inserted,
        r is Err ==> *final(counters) == *old(counters),
        r is Err ==> (r matches Err(StoreError::Sql(_)) || r matches Err(StoreError::Record(_))),
        forall|e: RecordError|
            #[trigger] classifies_as(buf.spec_bytes(), Err(e)) <==> (r matches Err(
                StoreError::Record(x),
            ) && x == e),
{
    let classified = classify(buf);
    proof {
        assert forall|e: RecordError| #[trigger]
            classifies_as(buf.spec_bytes(), Err(e)) implies classified == Err::<Record, RecordError>(
            e,
        ) by {
            crate::classify::lemma_failure_unique(buf.spec_bytes(), classified, e);
        }
    }
    let rec = match classified {
        Ok(rec) => rec,
        Err(e) => {
            return Err(StoreError::Record(e));
        },
    };
    match event_statement(buf, &rec) {
        None => {
            counters.record(0);
            Ok(())
        },
        Some((sql, params)) => match execute_text(tx, sql, params.as_slice()) {
            Ok(n) => {
                counters.record(n);
                Ok(())
            },
            Err(e) => Err(StoreError::Sql(e)),
        },
    }
}

/// Stores every record of `items` within `tx`, in order.
fn insert_events(counters: &mut Counters, tx: &rusqlite::Transaction<'_>, items: &Vec<String>) -> (r:
    Result<(), StoreError>)
    ensures
        r is Ok ==> final(counters).received == saturating(
            old(counters).received as int,
            items@.len() as int,
        ),
        final(counters).received >= old(counters).received,
        final(counters).inserted >= old(counters).inserted,
{
    let mut i: usize = 0;
    while i < items.len()
        invariant
            i <= items@.len(),
            counters.received == saturating(old(counters).received as int, i as int),
            counters.inserted >= old(counters).inserted,
        decreases items@.len() - i,
    {
        proof {
            crate::store::lemma_saturating_twice(old(counters).received as int, i as int, 1);
        }
        insert_event(counters, tx, items[i].as_str())?;
        i = i + 1;
    }
    Ok(())
}

/// A writer that owns the database connection and the receiving end of the
/// record channel.
pub struct Database {
    conn: rusqlite::Connection,
    rx: std::sync::mpsc::Receiver<String>,
    counters: Counters,
}

impl Database {
    /// The writer's totals.
    pub closed spec fn totals(&self) -> Counters {
        self.counters
    }

    /// Opens the database file in write-ahead-log mode with relaxed syncing
    /// and applies the event schema.
    pub fn new(filename: String, rx: std::sync::mpsc::Receiver<String>) -> (r: Result<
        Database,
        StoreError,
    >)
        ensures
            r matches Ok(db) ==> db.totals() == Counters::new_spec(),
            r is Err ==> r matches Err(StoreError::Sql(_)),
    {
        let conn = open_store(filename.as_str(), EVENT_SCHEMA)?;
        Ok(Database { conn, rx, counters: Counters::new() })
    }

    /// The writer's totals.
    pub fn counters(&self) -> (r: Counters)
        ensures
            r == self.totals(),
    {
        self.counters
    }

    /// One batch: waits for a record, then stores it and every record queued
    /// behind it in one transaction, and gives how many it stored. `Ok(0)`
    /// once the channel is closed and empty.
    pub fn step(&mut self) -> (r: Result<usize, StoreError>)
        ensures
            r == Ok::<usize, StoreError>(0) ==> final(self).totals() == old(self).totals(),
            r matches Ok(n) ==> final(self).totals().received == saturating(
                old(self).totals().received as int,
                n as int,
            ),
            final(self).totals().received >= old(self).totals().received,
            final(self).totals().inserted >= old(self).totals().inserted,
    {
        match receive(&self.rx) {
            None => Ok(0),
            Some(first) => {
                let tx = match begin(&mut self.conn) {
                    Ok(tx) => tx,
                    Err(e) => {
                        return Err(StoreError::Sql(e));
                    },
                };
                insert_event(&mut self.counters, &tx, first.as_str())?;
                let rest = drain_ready(&self.rx);
                insert_events(&mut self.counters, &tx, &rest)?;
                let n = if rest.len() < usize::MAX {
                    rest.len() + 1
                } else {
                    usize::MAX
                };
                proof {
                    crate::store::lemma_saturating_twice(
                        old(self).counters.received as int,
                        1,
                        rest@.len() as int,
                    );
                }
                match commit(tx) {
                    Ok(()) => Ok(n),
                    Err(e) => Err(StoreError::Sql(e)),
                }
            },
        }
    }

    /// Closes the connection, flushing pending state, and hands back the
    /// final totals.
    pub fn close(self) -> (r: Result<Counters, StoreError>)
        ensures
            r matches Ok(c) ==> c == self.totals(),
    {
        let counters = self.counters;
        match close(self.conn) {
            Ok(()) => Ok(counters),
            Err(e) => Err(StoreError::Sql(e)),
        }
    }
}

} // verus!
