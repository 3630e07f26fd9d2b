//! Targeted substring search over raw record bytes.
use vstd::prelude::*;

verus! {

/// The double-quote byte that closes a string value.
pub const QUOTE: u8 = 34;

/// `pat` occurs in `s` starting at index `i`.
pub open spec fn occurs_at(s: Seq<u8>, pat: Seq<u8>, i: int) -> bool {
    0 <= i && i + pat.len() <= s.len() && s.subrange(i, i + pat.len()) == pat
}

/// `i` is the first occurrence of `pat` in `s` at or after `from`.
pub open spec fn first_at(s: Seq<u8>, pat: Seq<u8>, from: int, i: int) -> bool {
    from <= i && occurs_at(s, pat, i) && forall|j: int| from <= j < i ==> !occurs_at(s, pat, j)
}

/// `pat` does not occur in `s` at or after `from`.
pub open spec fn none_from(s: Seq<u8>, pat: Seq<u8>, from: int) -> bool {
    forall|j: int| from <= j ==> !occurs_at(s, pat, j)
}

/// The value introduced by `marker` spans `[a, b)`: `marker` first occurs
/// right before `a`, and `b` is the first quote at or after `a`.
pub open spec fn field_at(s: Seq<u8>, marker: Seq<u8>, a: int, b: int) -> bool {
    a >= marker.len() && first_at(s, marker, 0, a - marker.len()) && first_at(
        s,
        seq![QUOTE],
        a,
        b,
    )
}

/// No value can be read for `marker`: either it does not occur, or no quote
/// closes the value after its first occurrence.
pub open spec fn lacks_field(s: Seq<u8>, marker: Seq<u8>) -> bool {
    forall|a: int|
        a >= marker.len() && #[trigger] first_at(s, marker, 0, a - marker.len()) ==> none_from(
            s,
            seq![QUOTE],
            a,
        )
}

/// Whether `pat` occurs in `s` at index `i`.
pub fn matches_at(s: &[u8], pat: &[u8], i: usize) -> (r: bool)
    ensures
        r == occurs_at(s@, pat@, i as int),
{
    if i > s.len() || pat.len() > s.len() - i {
        return false;
    }
    let mut k: usize = 0;
    while k < pat.len()
        invariant
            i + pat.len() <= s.len(),
            k <= pat.len(),
            forall|t: int| 0 <= t < k ==> s@[i + t] == pat@[t],
        decreases pat.len() - k,
    {
        if s[i + k] != pat[k] {
            assert(s@.subrange(i as int, i + pat.len())[k as int] != pat@[k as int]);
            return false;
        }
        k = k + 1;
    }
    assert(s@.subrange(i as int, i + pat.len()) =~= pat@);
    true
}

/// The first occurrence of `pat` in `s` at or after `from`.
pub fn find(s: &[u8], pat: &[u8], from: usize) -> (r: Option<usize>)
    ensures
        match r {
            Some(i) => first_at(s@, pat@, from as int, i as int),
            None => none_from(s@, pat@, from as int),
        },
{
    if pat.len() > s.len() {
        return None;
    }
    let last = s.len() - pat.len();
    let mut i = from;
    while i <= last
        invariant
            last == s.len() - pat.len(),
            from <= i,
            forall|j: int| from <= j < i ==> !occurs_at(s@, pat@, j),
        decreases last + 1 - i,
    {
        if matches_at(s, pat, i) {
            return Some(i);
        }
        if i == last {
            return None;
        }
        i = i + 1;
    }
    None
}

/// The span of the value that `marker` introduces, read up to the next quote.
pub fn field(s: &[u8], marker: &[u8]) -> (r: Option<(usize, usize)>)
    ensures
        match r {
            Some((a, b)) => field_at(s@, marker@, a as int, b as int),
            None => lacks_field(s@, marker@),
        },
{
    match find(s, marker, 0) {
        None => None,
        Some(i) => {
            assert(occurs_at(s@, marker@, i as int));
            assert(s@.len() == s.len());
            let a = i + marker.len();
            let quote = [QUOTE];
            assert(quote@ == seq![QUOTE]);
            match find(s, &quote, a) {
                None => {
                    assert forall|a2: int|
                        a2 >= marker@.len() && #[trigger] first_at(
                            s@,
                            marker@,
                            0,
                            a2 - marker@.len(),
                        ) implies none_from(s@, seq![QUOTE], a2) by {
                        assert(a2 - marker@.len() == i);
                    }
                    None
                },
                Some(b) => Some((a, b)),
            }
        },
    }
}

} // verus!
