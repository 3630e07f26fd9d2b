use eve_sqlite::filedata::{
    filedata_row, is_stored_compressed, stored_payload, Database, Filedata, Reassembler,
};
use eve_sqlite::store::{store_pragmas, Counters};
use std::io::Read;
use std::sync::mpsc;

fn inflate(data: &[u8]) -> Vec<u8> {
    let mut out = Vec::new();
    flate2::read::DeflateDecoder::new(data).read_to_end(&mut out).unwrap();
    out
}

fn sample(len: usize) -> Vec<u8> {
    (0..len).map(|i| (i % 7) as u8).collect()
}

#[test]
fn chunks_accumulate_until_the_last() {
    let mut r = Reassembler::new();
    assert!(r.push_chunk(1, b"ab", false, [0; 32]).is_none());
    assert!(r.push_chunk(2, b"xy", false, [0; 32]).is_none());
    assert_eq!(r.open_streams(), 2);
    let fd = r.push_chunk(1, b"cd", true, [9; 32]).unwrap();
    assert_eq!(fd.blob, b"abcd".to_vec());
    assert_eq!(fd.sha256, [9; 32]);
    assert_eq!(r.open_streams(), 1);
}

#[test]
fn single_final_chunk_is_a_whole_blob() {
    let mut r = Reassembler::new();
    let fd = r.push_chunk(5, b"solo", true, [1; 32]).unwrap();
    assert_eq!(fd.blob, b"solo".to_vec());
    assert_eq!(r.open_streams(), 0);
}

#[test]
fn small_blob_is_stored_verbatim() {
    let blob = sample(255);
    assert_eq!(stored_payload(&blob), blob);
    assert!(!is_stored_compressed(255));
    assert!(stored_payload(&Vec::new()).is_empty());
}

#[test]
fn large_blob_round_trips_through_compression() {
    let blob = sample(256);
    let stored = stored_payload(&blob);
    assert_ne!(stored, blob);
    assert_eq!(inflate(&stored), blob);
    assert!(is_stored_compressed(256));
    let big = sample(100_000);
    assert_eq!(inflate(&stored_payload(&big)), big);
}

#[test]
fn blobs_are_stored_once_per_hash() {
    let name = "file:filedata_dedup?mode=memory&cache=shared";
    let reader = rusqlite::Connection::open(name).unwrap();
    let (tx, rx) = mpsc::sync_channel(10);
    let mut db = Database::new(name.to_string(), rx).unwrap();
    tx.send(Filedata { blob: sample(1000), sha256: [3; 32] }).unwrap();
    tx.send(Filedata { blob: sample(1000), sha256: [3; 32] }).unwrap();
    tx.send(Filedata { blob: sample(10), sha256: [4; 32] }).unwrap();
    drop(tx);
    while db.step().unwrap() > 0 {}
    assert_eq!(db.counters(), Counters { received: 3, inserted: 2 });
    let (size, data): (i64, Vec<u8>) = reader
        .query_row("SELECT original_size, data FROM filedata WHERE sha256 = ?1", [[3u8; 32]], |row| {
            Ok((row.get(0)?, row.get(1)?))
        })
        .unwrap();
    assert_eq!(size, 1000);
    assert_eq!(inflate(&data), sample(1000));
    let (size, data): (i64, Vec<u8>) = reader
        .query_row("SELECT original_size, data FROM filedata WHERE sha256 = ?1", [[4u8; 32]], |row| {
            Ok((row.get(0)?, row.get(1)?))
        })
        .unwrap();
    assert_eq!(size, 10);
    assert_eq!(data, sample(10));
}

#[test]
fn counters_hold_at_the_largest_value() {
    let mut c = Counters { received: usize::MAX, inserted: usize::MAX - 1 };
    c.record(5);
    assert_eq!(c, Counters { received: usize::MAX, inserted: usize::MAX });
    let mut d = Counters::new();
    d.record(1);
    d.record(0);
    assert_eq!(d, Counters { received: 2, inserted: 1 });
}

#[test]
fn threshold_blob_of_zeros_is_compressed() {
    let blob = vec![0u8; 256];
    let (key, size, data) = filedata_row(&Filedata { blob: blob.clone(), sha256: [2; 32] });
    assert_eq!(key, [2; 32]);
    assert_eq!(size, 256);
    assert_ne!(data, blob);
    assert_eq!(inflate(&data), blob);
}

#[test]
fn row_keeps_original_size_of_small_blob() {
    let (key, size, data) = filedata_row(&Filedata { blob: sample(10), sha256: [6; 32] });
    assert_eq!((key, size, data), ([6; 32], 10, sample(10)));
}

#[test]
fn connections_use_wal_without_sync() {
    assert_eq!(store_pragmas(), vec![("journal_mode", "wal"), ("synchronous", "off")]);
}
