//! Stored form of a pool: one tag byte naming the kind, then the kind's own
//! payload. Tags are only ever appended, so a stored record of an existing
//! kind reads back the same whatever kinds come later.
use vstd::prelude::*;

use crate::pool::PoolKind;

verus! {

/// Tag stored for each kind.
pub open spec fn tag_of(k: PoolKind) -> u8 {
    match k {
        PoolKind::Simple => 0,
        PoolKind::StableSwap => 1,
        PoolKind::RatedSwap => 2,
    }
}

/// Kind that a stored tag names; `None` for a tag no kind has.
pub open spec fn kind_of_tag(t: u8) -> Option<PoolKind> {
    if t == 0 {
        Some(PoolKind::Simple)
    } else if t == 1 {
        Some(PoolKind::StableSwap)
    } else if t == 2 {
        Some(PoolKind::RatedSwap)
    } else {
        None
    }
}

/// How a stored record reads: its kind and its payload.
pub open spec fn read_record(b: Seq<u8>) -> Option<(PoolKind, Seq<u8>)> {
    if b.len() == 0 {
        None
    } else {
        match kind_of_tag(b[0]) {
            Some(k) => Some((k, b.drop_first())),
            None => None,
        }
    }
}

pub fn kind_tag(k: PoolKind) -> (r: u8)
    ensures
        r == tag_of(k),
{
    match k {
        PoolKind::Simple => 0,
        PoolKind::StableSwap => 1,
        PoolKind::RatedSwap => 2,
    }
}

pub fn kind_from_tag(t: u8) -> (r: Option<PoolKind>)
    ensures
        r == kind_of_tag(t),
{
    if t == 0 {
        Some(PoolKind::Simple)
    } else if t == 1 {
        Some(PoolKind::StableSwap)
    } else if t == 2 {
        Some(PoolKind::RatedSwap)
    } else {
        None
    }
}

/// The stored record of a pool of kind `k` whose own fields are `payload`.
pub fn frame_record(k: PoolKind, payload: &Vec<u8>) -> (r: Vec<u8>)
    ensures
        r@ == seq![tag_of(k)] + payload@,
{
    let mut out: Vec<u8> = Vec::new();
    out.push(kind_tag(k));
    let mut i: usize = 0;
    while i < payload.len()
        invariant
            0 <= i <= payload@.len(),
            out@ =~= seq![tag_of(k)] + payload@.subrange(0, i as int),
        decreases payload@.len() - i,
    {
        out.push(payload[i]);
        i = i + 1;
    }
    proof {
        assert(payload@.subrange(0, i as int) =~= payload@);
    }
    out
}

/// Reads a stored record back into its kind and payload.
pub fn split_record(b: &Vec<u8>) -> (r: Option<(PoolKind, Vec<u8>)>)
    ensures
        match r {
            Some((k, p)) => read_record(b@) == Some((k, p@)),
            None => read_record(b@) is None,
        },
{
    if b.len() == 0 {
        return None;
    }
    let k = match kind_from_tag(b[0]) {
        Some(k) => k,
        None => {
            return None;
        },
    };
    let mut payload: Vec<u8> = Vec::new();
    let mut i: usize = 1;
    while i < b.len()
        invariant
            1 <= i <= b@.len(),
            payload@ =~= b@.subrange(1, i as int),
        decreases b@.len() - i,
    {
        payload.push(b[i]);
        i = i + 1;
    }
    proof {
        assert(payload@ =~= b@.drop_first());
    }
    Some((k, payload))
}

/// A record reads back as the kind and payload it was framed from.
pub proof fn lemma_record_round_trip(k: PoolKind, payload: Seq<u8>)
    ensures
        read_record(seq![tag_of(k)] + payload) == Some((k, payload)),
{
    let b = seq![tag_of(k)] + payload;
    assert(b.drop_first() =~= payload);
}

/// The reading of a record is fixed by its tag and payload alone, and a tag
/// that names no kind yet is refused rather than read as another kind: so a
/// kind added later under a new tag leaves every existing record reading as
/// before.
pub proof fn lemma_existing_tags_stable(b: Seq<u8>, t: u8)
    ensures
        b.len() > 0 && kind_of_tag(b[0]) is Some ==> read_record(b) == Some((kind_of_tag(b[0])->Some_0, b.drop_first())),
        t > 2 ==> kind_of_tag(t) is None,
        forall|k: PoolKind| #[trigger] kind_of_tag(tag_of(k)) == Some(k),
{
}

} // verus!
