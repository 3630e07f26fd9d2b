//! Classification of raw event records and extraction of the few fields the
//! writer needs outside of SQL: the type tag and the two flow addresses.
use vstd::prelude::*;
use vstd::string::*;
use vstd::utf8::{encode_utf8, is_char_boundary};
use crate::scan::{matches_at, field, field_at, find, first_at, lacks_field, none_from, occurs_at, QUOTE};

verus! {

/// `"event_type":"`, which introduces the type tag.
pub open spec fn event_type_marker() -> Seq<u8> {
    seq![34u8, 101, 118, 101, 110, 116, 95, 116, 121, 112, 101, 34, 58, 34]
}

/// `, "event_type": "`, the spaced spelling some serializers emit.
pub open spec fn spaced_event_type_marker() -> Seq<u8> {
    seq![44u8, 32, 34, 101, 118, 101, 110, 116, 95, 116, 121, 112, 101, 34, 58, 32, 34]
}

/// `,"src_ip":"`
pub open spec fn src_ip_marker() -> Seq<u8> {
    seq![44u8, 34, 115, 114, 99, 95, 105, 112, 34, 58, 34]
}

/// `,"dest_ip":"`
pub open spec fn dest_ip_marker() -> Seq<u8> {
    seq![44u8, 34, 100, 101, 115, 116, 95, 105, 112, 34, 58, 34]
}

/// `flow`
pub open spec fn flow_tag() -> Seq<u8> {
    seq![102u8, 108, 111, 119]
}

/// `alert`
pub open spec fn alert_tag() -> Seq<u8> {
    seq![97u8, 108, 101, 114, 116]
}

/// The type tag of record `s` spans `[a, b)`. The compact marker is used
/// whenever it occurs; the spaced one only where the compact one does not.
pub open spec fn type_tag_at(s: Seq<u8>, a: int, b: int) -> bool {
    if none_from(s, event_type_marker(), 0) {
        field_at(s, spaced_event_type_marker(), a, b)
    } else {
        field_at(s, event_type_marker(), a, b)
    }
}

/// Record `s` carries no readable type tag.
pub open spec fn untyped(s: Seq<u8>) -> bool {
    if none_from(s, event_type_marker(), 0) {
        lacks_field(s, spaced_event_type_marker())
    } else {
        lacks_field(s, event_type_marker())
    }
}

/// The bytes `[a, b)` of `s` can be cut out as text.
pub open spec fn cuts_cleanly(s: Seq<u8>, a: int, b: int) -> bool {
    is_char_boundary(s, b) && is_char_boundary(s.subrange(0, b), a)
}

/// What an outside parser makes of an IP address literal: `None` where it is
/// malformed, else whether it is IPv6 and its canonical text.
pub uninterp spec fn parsed_ip(text: Seq<u8>) -> Option<(bool, Seq<char>)>;

/// How an address is stored: IPv4 as is, IPv6 between square brackets.
pub open spec fn stored_address(v6: bool, text: Seq<char>) -> Seq<char> {
    if v6 {
        seq!['['] + text + seq![']']
    } else {
        text
    }
}

/// A fatal breach of the record format: the producer and the sink disagree.
#[derive(Debug, Clone, Copy, PartialEq, Eq, Structural)]
pub enum RecordError {
    /// A flow record without a readable `src_ip`.
    MissingSourceAddress,
    /// A flow record without a readable `dest_ip`.
    MissingDestinationAddress,
    /// An address literal that does not parse as an IP address.
    MalformedAddress,
    /// A field whose bytes cannot be cut out of the record as text.
    BrokenText,
}

/// A classified record, with the fields that the insert statements need.
#[derive(Debug, Clone, PartialEq, Eq)]
pub enum Record {
    /// No type tag: received, never inserted.
    Untyped,
    /// A flow, with both addresses in stored form.
    Flow { src_ip: String, dest_ip: String },
    /// An alert.
    Alert,
    /// Any other typed event, with its type tag.
    Other { event_type: String },
}

/// What reading the address that `marker` introduces makes of record `s`:
/// `done` says what the outcome is, given the address in stored form.
pub open spec fn address_outcome(
    s: Seq<u8>,
    marker: Seq<u8>,
    missing: RecordError,
    r: Result<Record, RecordError>,
    done: spec_fn(Seq<char>) -> bool,
) -> bool {
    &&& lacks_field(s, marker) ==> r == Err::<Record, RecordError>(missing)
    &&& forall|a: int, b: int|
        #[trigger] field_at(s, marker, a, b) ==> {
            if !cuts_cleanly(s, a, b) {
                r == Err::<Record, RecordError>(RecordError::BrokenText)
            } else {
                match parsed_ip(s.subrange(a, b)) {
                    None => r == Err::<Record, RecordError>(RecordError::MalformedAddress),
                    Some((v6, t)) => done(stored_address(v6, t)),
                }
            }
        }
}

/// The outcome for a flow record `s`: the source address is read first, then
/// the destination address.
pub open spec fn flow_outcome(s: Seq<u8>, r: Result<Record, RecordError>) -> bool {
    address_outcome(
        s,
        src_ip_marker(),
        RecordError::MissingSourceAddress,
        r,
        |src: Seq<char>|
            address_outcome(
                s,
                dest_ip_marker(),
                RecordError::MissingDestinationAddress,
                r,
                |dest: Seq<char>|
                    match r {
                        Ok(Record::Flow { src_ip, dest_ip }) => src_ip@ == src && dest_ip@ == dest,
                        _ => false,
                    },
            ),
    )
}

/// The outcome for record `s` whose type tag spans `[a, b)`.
pub open spec fn tagged_outcome(s: Seq<u8>, a: int, b: int, r: Result<Record, RecordError>) -> bool {
    if !cuts_cleanly(s, a, b) {
        r == Err::<Record, RecordError>(RecordError::BrokenText)
    } else if s.subrange(a, b) == flow_tag() {
        flow_outcome(s, r)
    } else if s.subrange(a, b) == alert_tag() {
        r == Ok::<Record, RecordError>(Record::Alert)
    } else {
        match r {
            Ok(Record::Other { event_type }) => encode_utf8(event_type@) == s.subrange(a, b),
            _ => false,
        }
    }
}

/// `c` is what classifying record `s` gives.
pub open spec fn classifies_as(s: Seq<u8>, c: Result<Record, RecordError>) -> bool {
    &&& untyped(s) ==> c == Ok::<Record, RecordError>(Record::Untyped)
    &&& forall|a: int, b: int| #[trigger] type_tag_at(s, a, b) ==> tagged_outcome(s, a, b, c)
}

/// Two spans read for the same marker are the same span.
pub proof fn lemma_field_unique(s: Seq<u8>, marker: Seq<u8>, a1: int, b1: int, a2: int, b2: int)
    requires
        field_at(s, marker, a1, b1),
        field_at(s, marker, a2, b2),
    ensures
        a1 == a2 && b1 == b2,
{
    let i1 = a1 - marker.len();
    let i2 = a2 - marker.len();
    if i1 < i2 {
        assert(!occurs_at(s, marker, i1));
    } else if i2 < i1 {
        assert(!occurs_at(s, marker, i2));
    }
    if b1 < b2 {
        assert(!occurs_at(s, seq![QUOTE], b1));
    } else if b2 < b1 {
        assert(!occurs_at(s, seq![QUOTE], b2));
    }
}

/// Where `pat` occurs at or after `from`, it has a first occurrence there.
pub proof fn lemma_first_exists(s: Seq<u8>, pat: Seq<u8>, from: int, j: int)
    requires
        from <= j,
        occurs_at(s, pat, j),
    ensures
        exists|i: int| first_at(s, pat, from, i),
    decreases j - from,
{
    if exists|k: int| from <= k < j && occurs_at(s, pat, k) {
        let k = choose|k: int| from <= k < j && occurs_at(s, pat, k);
        lemma_first_exists(s, pat, from, k);
    } else {
        assert(first_at(s, pat, from, j));
    }
}

/// Where a value can be read for `marker`, it has a span.
pub proof fn lemma_field_exists(s: Seq<u8>, marker: Seq<u8>)
    requires
        !lacks_field(s, marker),
    ensures
        exists|a: int, b: int| field_at(s, marker, a, b),
{
    let a = choose|a: int|
        a >= marker.len() && #[trigger] first_at(s, marker, 0, a - marker.len()) && !none_from(
            s,
            seq![QUOTE],
            a,
        );
    let j = choose|j: int| a <= j && occurs_at(s, seq![QUOTE], j);
    lemma_first_exists(s, seq![QUOTE], a, j);
    let b = choose|b: int| first_at(s, seq![QUOTE], a, b);
    assert(field_at(s, marker, a, b));
}

/// Classifying a record has one outcome: where it fails, it fails the same way
/// whatever else is said to classify it.
pub proof fn lemma_failure_unique(s: Seq<u8>, c: Result<Record, RecordError>, e: RecordError)
    requires
        classifies_as(s, c),
        classifies_as(s, Err(e)),
    ensures
        c == Err::<Record, RecordError>(e),
{
    if !untyped(s) {
        let m = if none_from(s, event_type_marker(), 0) {
            spaced_event_type_marker()
        } else {
            event_type_marker()
        };
        lemma_field_exists(s, m);
        let (a, b) = choose|a: int, b: int| field_at(s, m, a, b);
        assert(type_tag_at(s, a, b));
        assert(tagged_outcome(s, a, b, c));
        assert(tagged_outcome(s, a, b, Err(e)));
        if cuts_cleanly(s, a, b) && s.subrange(a, b) == flow_tag() {
            if !lacks_field(s, src_ip_marker()) {
                lemma_field_exists(s, src_ip_marker());
            }
            if !lacks_field(s, dest_ip_marker()) {
                lemma_field_exists(s, dest_ip_marker());
            }
        }
    }
}

/// The type tag of a record, read with the marker that the record uses.
fn type_tag(s: &[u8]) -> (r: Option<(usize, usize)>)
    ensures
        match r {
            Some((a, b)) => type_tag_at(s@, a as int, b as int),
            None => untyped(s@),
        },
{
    let compact: [u8; 14] = [34, 101, 118, 101, 110, 116, 95, 116, 121, 112, 101, 34, 58, 34];
    assert(compact@ =~= event_type_marker());
    match find(s, &compact, 0) {
        Some(_) => field(s, &compact),
        None => {
            let spaced: [u8; 17] = [
                44, 32, 34, 101, 118, 101, 110, 116, 95, 116, 121, 112, 101, 34, 58, 32, 34,
            ];
            assert(spaced@ =~= spaced_event_type_marker());
            field(s, &spaced)
        },
    }
}

/// Reads the address that `marker` introduces and renders it in stored form.
fn read_address(buf: &str, marker: &[u8], missing: RecordError) -> (r: Result<String, RecordError>)
    ensures
        lacks_field(buf.spec_bytes(), marker@) ==> r == Err::<String, RecordError>(missing),
        forall|a: int, b: int|
            #[trigger] field_at(buf.spec_bytes(), marker@, a, b) ==> {
                if !cuts_cleanly(buf.spec_bytes(), a, b) {
                    r == Err::<String, RecordError>(RecordError::BrokenText)
                } else {
                    match parsed_ip(buf.spec_bytes().subrange(a, b)) {
                        None => r == Err::<String, RecordError>(RecordError::MalformedAddress),
                        Some((v6, t)) => r is Ok && r->Ok_0@ == stored_address(v6, t),
                    }
                }
            },
{
    let s = buf.as_bytes();
    match field(s, marker) {
        None => Err(missing),
        Some((a, b)) => {
            proof {
                assert forall|a2: int, b2: int|
                    #[trigger] field_at(buf.spec_bytes(), marker@, a2, b2) implies a2 == a && b2
                        == b by {
                    lemma_field_unique(buf.spec_bytes(), marker@, a as int, b as int, a2, b2);
                }
            }
            match cut(buf, a, b) {
                None => Err(RecordError::BrokenText),
                Some(text) => storage_address(text),
            }
        },
    }
}

/// Classifies a raw record and extracts the fields its insert statement needs.
pub fn classify(buf: &str) -> (r: Result<Record, RecordError>)
    ensures
        classifies_as(buf.spec_bytes(), r),
{
    let s = buf.as_bytes();
    match type_tag(s) {
        None => Ok(Record::Untyped),
        Some((a, b)) => {
            proof {
                assert forall|a2: int, b2: int|
                    #[trigger] type_tag_at(buf.spec_bytes(), a2, b2) implies a2 == a && b2
                        == b by {
                    if none_from(s@, event_type_marker(), 0) {
                        lemma_field_unique(s@, spaced_event_type_marker(), a as int, b as int, a2, b2);
                    } else {
                        lemma_field_unique(s@, event_type_marker(), a as int, b as int, a2, b2);
                    }
                }
            }
            let tag = match cut(buf, a, b) {
                None => {
                    return Err(RecordError::BrokenText);
                },
                Some(t) => t,
            };
            let flow: [u8; 4] = [102, 108, 111, 119];
            let alert: [u8; 5] = [97, 108, 101, 114, 116];
            assert(flow@ =~= flow_tag());
            assert(alert@ =~= alert_tag());
            let tb = tag.as_bytes();
            if tb.len() == flow.len() && matches_at(tb, &flow, 0) {
                assert(tb@.subrange(0, 4) =~= tb@);
                let src_marker: [u8; 11] = [44, 34, 115, 114, 99, 95, 105, 112, 34, 58, 34];
                assert(src_marker@ =~= src_ip_marker());
                let dest_marker: [u8; 12] = [44, 34, 100, 101, 115, 116, 95, 105, 112, 34, 58, 34];
                assert(dest_marker@ =~= dest_ip_marker());
                let src_ip = match read_address(buf, &src_marker, RecordError::MissingSourceAddress) {
                    Err(e) => {
                        return Err(e);
                    },
                    Ok(x) => x,
                };
                let dest_ip = match read_address(buf, &dest_marker, RecordError::MissingDestinationAddress) {
                    Err(e) => {
                        return Err(e);
                    },
                    Ok(x) => x,
                };
                Ok(Record::Flow { src_ip, dest_ip })
            } else if tb.len() == alert.len() && matches_at(tb, &alert, 0) {
                assert(tb@.subrange(0, 5) =~= tb@);
                Ok(Record::Alert)
            } else {
                proof {
                    if tb@ == flow_tag() {
                        assert(tb@.subrange(0, 4) =~= tb@);
                    }
                    if tb@ == alert_tag() {
                        assert(tb@.subrange(0, 5) =~= tb@);
                    }
                }
                Ok(Record::Other { event_type: tag.to_owned() })
            }
        },
    }
}

/// Relies on `core::net::IpAddr`'s `FromStr` to parse an address literal and
/// on its `Display` to render it; `true` marks an IPv6 address.
#[verifier::external_body]
fn parse_ip(text: &str) -> (r: Option<(bool, String)>)
    ensures
        match r {
            None => parsed_ip(text.spec_bytes()).is_none(),
            Some((v6, t)) => parsed_ip(text.spec_bytes()) == Some((v6, t@)),
        },
{
    match text.parse::<core::net::IpAddr>() {
        Ok(core::net::IpAddr::V4(ip)) => Some((false, ip.to_string())),
        Ok(core::net::IpAddr::V6(ip)) => Some((true, ip.to_string())),
        Err(_) => None,
    }
}

/// The stored form of an address literal.
pub fn storage_address(text: &str) -> (r: Result<String, RecordError>)
    ensures
        match parsed_ip(text.spec_bytes()) {
            None => r == Err::<String, RecordError>(RecordError::MalformedAddress),
            Some((v6, t)) => r is Ok && r->Ok_0@ == stored_address(v6, t),
        },
{
    match parse_ip(text) {
        None => Err(RecordError::MalformedAddress),
        Some((v6, t)) => {
            if v6 {
                Ok(bracketed(&t))
            } else {
                Ok(t)
            }
        },
    }
}

/// `t` between square brackets.
fn bracketed(t: &String) -> (r: String)
    ensures
        r@ == seq!['['] + t@ + seq![']'],
{
    proof {
        reveal_strlit("[");
        reveal_strlit("]");
    }
    let mut r = String::from_str("[");
    r.append(t.as_str());
    r.append("]");
    r
}

/// The text `[a, b)` of `s`, where it can be cut there.
fn cut(s: &str, a: usize, b: usize) -> (r: Option<&str>)
    requires
        a <= b <= s.spec_bytes().len(),
    ensures
        match r {
            Some(t) => cuts_cleanly(s.spec_bytes(), a as int, b as int) && t.spec_bytes()
                == s.spec_bytes().subrange(a as int, b as int),
            None => !cuts_cleanly(s.spec_bytes(), a as int, b as int),
        },
{
    if !s.is_char_boundary(b) {
        return None;
    }
    let (head, _) = s.split_at(b);
    if !head.is_char_boundary(a) {
        return None;
    }
    let (_, t) = head.split_at(a);
    proof {
        assert(t.spec_bytes() =~= s.spec_bytes().subrange(a as int, b as int));
    }
    Some(t)
}

} // verus!
