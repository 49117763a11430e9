//! Event payload codec.
//!
//! Each event variant owns a typed configuration record that travels inside
//! a scheduled-instance record as an opaque byte blob. The blob starts with
//! the owning variant's id, so a payload decodes under exactly one variant:
//! decoding it with any other variant's decoder fails deterministically.
//!
//! Wire shape: every integer is a `u64` in little-endian order; a list is a
//! count followed by its elements; the group-voting payload ends with the
//! wrapped variant's payload as a length-prefixed raw blob.

use vstd::prelude::*;

use vstd::bytes::{
    lemma_auto_spec_u64_to_from_le_bytes, spec_u64_from_le_bytes, spec_u64_to_le_bytes,
    u64_from_le_bytes, u64_to_le_bytes,
};
use vstd::slice::{slice_subrange, slice_to_vec};

use crate::events::{GROUP_VOTING_ID, LATE_PUBLICATION_ID, PUBLICATION_ID};
use crate::tally::Ratio;
use crate::types::{CommonError, CommonResult, Id};

verus! {

/// Configuration of a publication instance.
#[derive(Clone, Copy, PartialEq, Eq, Structural, Debug)]
pub struct PublicationData {
    pub group_id: Id,
}

/// Configuration of a late-publication instance. `late_users` is fixed at
/// creation time and never recomputed.
#[derive(Clone, PartialEq, Eq, Debug)]
pub struct LatePublicationData {
    pub group_id: Id,
    pub parent_id: Id,
    pub late_users: Vec<Id>,
}

/// Mathematical value of a [`LatePublicationData`].
pub struct LatePublicationDataV {
    pub group_id: Id,
    pub parent_id: Id,
    pub late_users: Seq<Id>,
}

impl View for LatePublicationData {
    type V = LatePublicationDataV;

    open spec fn view(&self) -> LatePublicationDataV {
        LatePublicationDataV {
            group_id: self.group_id,
            parent_id: self.parent_id,
            late_users: self.late_users@,
        }
    }
}

/// Configuration of a group-voting instance: which variant it wraps, whose
/// group votes, the approval ratio, and the wrapped variant's own payload.
#[derive(Clone, PartialEq, Eq, Debug)]
pub struct GroupVotingData {
    pub internal_id: Id,
    pub group_id: Id,
    pub success_ratio: Ratio,
    pub internal_data: Vec<u8>,
}

/// Mathematical value of a [`GroupVotingData`].
pub struct GroupVotingDataV {
    pub internal_id: Id,
    pub group_id: Id,
    pub success_ratio: Ratio,
    pub internal_data: Seq<u8>,
}

impl View for GroupVotingData {
    type V = GroupVotingDataV;

    open spec fn view(&self) -> GroupVotingDataV {
        GroupVotingDataV {
            internal_id: self.internal_id,
            group_id: self.group_id,
            success_ratio: self.success_ratio,
            internal_data: self.internal_data@,
        }
    }
}

/// Little-endian bytes of one integer.
pub open spec fn le8(x: u64) -> Seq<u8> {
    spec_u64_to_le_bytes(x)
}

/// The encoding of a list of ids, one integer after the other.
pub open spec fn spec_encode_ids(ids: Seq<Id>) -> Seq<u8>
    decreases ids.len(),
{
    if ids.len() == 0 {
        Seq::<u8>::empty()
    } else {
        spec_encode_ids(ids.drop_last()) + le8(ids.last())
    }
}

/// The ids read back from a byte run, eight bytes at a time.
pub open spec fn spec_decode_ids(s: Seq<u8>) -> Seq<Id> {
    Seq::new(s.len() / 8, |i: int| spec_u64_from_le_bytes(s.subrange(8 * i, 8 * i + 8)))
}

/// The blob a publication payload encodes to.
pub open spec fn spec_encode_publication(d: PublicationData) -> Seq<u8> {
    le8(PUBLICATION_ID) + le8(d.group_id)
}

/// The publication payload a blob holds, if it is one.
pub open spec fn spec_decode_publication(s: Seq<u8>) -> Option<PublicationData> {
    if s.len() == 16 && spec_u64_from_le_bytes(s.subrange(0, 8)) == PUBLICATION_ID {
        Some(PublicationData { group_id: spec_u64_from_le_bytes(s.subrange(8, 16)) })
    } else {
        None
    }
}

/// The blob a late-publication payload encodes to.
pub open spec fn spec_encode_late(d: LatePublicationDataV) -> Seq<u8> {
    le8(LATE_PUBLICATION_ID) + le8(d.group_id) + le8(d.parent_id) + le8(d.late_users.len() as u64)
        + spec_encode_ids(d.late_users)
}

/// The late-publication payload a blob holds, if it is one.
pub open spec fn spec_decode_late(s: Seq<u8>) -> Option<LatePublicationDataV> {
    if s.len() >= 32 && spec_u64_from_le_bytes(s.subrange(0, 8)) == LATE_PUBLICATION_ID {
        let count = spec_u64_from_le_bytes(s.subrange(24, 32));
        if s.len() == 32 + count * 8 {
            Some(
                LatePublicationDataV {
                    group_id: spec_u64_from_le_bytes(s.subrange(8, 16)),
                    parent_id: spec_u64_from_le_bytes(s.subrange(16, 24)),
                    late_users: spec_decode_ids(s.subrange(32, s.len() as int)),
                },
            )
        } else {
            None
        }
    } else {
        None
    }
}

/// The blob a group-voting payload encodes to.
pub open spec fn spec_encode_voting(d: GroupVotingDataV) -> Seq<u8> {
    le8(GROUP_VOTING_ID) + le8(d.internal_id) + le8(d.group_id) + le8(d.success_ratio.num as u64)
        + le8(d.success_ratio.den as u64) + le8(d.internal_data.len() as u64) + d.internal_data
}

/// Reads one integer out of a blob.
fn read_u64(s: &[u8], pos: usize) -> (x: u64)
    requires
        pos + 8 <= s@.len(),
    ensures
        x == spec_u64_from_le_bytes(s@.subrange(pos as int, pos as int + 8)),
{
    let n = s.len();
    assert(pos + 8 <= n);
    let chunk = slice_subrange(s, pos, pos + 8);
    u64_from_le_bytes(chunk)
}

/// Encodes a publication payload.
pub fn encode_publication(d: &PublicationData) -> (r: Vec<u8>)
    ensures
        r@ == spec_encode_publication(*d),
{
    let mut out = u64_to_le_bytes(PUBLICATION_ID);
    let mut group = u64_to_le_bytes(d.group_id);
    out.append(&mut group);
    out
}

/// Decodes a publication payload; fails on any blob that
/// [`spec_decode_publication`] rejects, and on no other.
pub fn decode_publication(payload: &Vec<u8>) -> (r: CommonResult<PublicationData>)
    ensures
        spec_decode_publication(payload@) matches Some(d) ==> r == Ok::<
            PublicationData,
            CommonError,
        >(d),
        spec_decode_publication(payload@) is None ==> r == Err::<PublicationData, CommonError>(
            CommonError::PayloadDecode { variant: PUBLICATION_ID },
        ),
{
    let s = payload.as_slice();
    if s.len() != 16 {
        return Err(CommonError::PayloadDecode { variant: PUBLICATION_ID });
    }
    if read_u64(s, 0) != PUBLICATION_ID {
        return Err(CommonError::PayloadDecode { variant: PUBLICATION_ID });
    }
    let group_id = read_u64(s, 8);
    Ok(PublicationData { group_id })
}

/// Encodes a late-publication payload.
pub fn encode_late(d: &LatePublicationData) -> (r: Vec<u8>)
    ensures
        r@ == spec_encode_late(d@),
{
    let mut out = u64_to_le_bytes(LATE_PUBLICATION_ID);
    let mut group = u64_to_le_bytes(d.group_id);
    out.append(&mut group);
    let mut parent = u64_to_le_bytes(d.parent_id);
    out.append(&mut parent);
    let mut count = u64_to_le_bytes(d.late_users.len() as u64);
    out.append(&mut count);
    let ghost head = out@;
    let mut i: usize = 0;
    while i < d.late_users.len()
        invariant
            i <= d.late_users@.len(),
            out@ == head + spec_encode_ids(d.late_users@.subrange(0, i as int)),
        decreases d.late_users@.len() - i,
    {
        proof {
            let sub = d.late_users@.subrange(0, i as int + 1);
            assert(sub.drop_last() =~= d.late_users@.subrange(0, i as int));
            assert(sub.last() == d.late_users@[i as int]);
        }
        let mut one = u64_to_le_bytes(d.late_users[i]);
        out.append(&mut one);
        i += 1;
    }
    proof {
        assert(d.late_users@.subrange(0, d.late_users@.len() as int) =~= d.late_users@);
    }
    out
}

/// Decodes a late-publication payload; fails on any blob that
/// [`spec_decode_late`] rejects, and on no other.
pub fn decode_late(payload: &Vec<u8>) -> (r: CommonResult<LatePublicationData>)
    ensures
        spec_decode_late(payload@) matches Some(v) ==> (r matches Ok(d) && d@ == v),
        spec_decode_late(payload@) is None ==> r == Err::<LatePublicationData, CommonError>(
            CommonError::PayloadDecode { variant: LATE_PUBLICATION_ID },
        ),
{
    let s = payload.as_slice();
    let n = s.len();
    if n < 32 {
        return Err(CommonError::PayloadDecode { variant: LATE_PUBLICATION_ID });
    }
    if read_u64(s, 0) != LATE_PUBLICATION_ID {
        return Err(CommonError::PayloadDecode { variant: LATE_PUBLICATION_ID });
    }
    let group_id = read_u64(s, 8);
    let parent_id = read_u64(s, 16);
    let count = read_u64(s, 24);
    let body: u64 = (n as u64) - 32;
    proof {
        vstd::arithmetic::div_mod::lemma_fundamental_div_mod(body as int, 8);
    }
    if body % 8 != 0 || count != body / 8 {
        return Err(CommonError::PayloadDecode { variant: LATE_PUBLICATION_ID });
    }
    let elems: usize = (n - 32) / 8;
    let mut late_users: Vec<Id> = Vec::new();
    let mut j: usize = 0;
    while j < elems
        invariant
            j <= elems,
            n == s@.len(),
            n == 32 + 8 * elems,
            late_users@.len() == j,
            forall|k: int|
                0 <= k < j ==> late_users@[k] == spec_u64_from_le_bytes(
                    s@.subrange(32 + 8 * k, 40 + 8 * k),
                ),
        decreases elems - j,
    {
        let one = read_u64(s, 32 + 8 * j);
        late_users.push(one);
        j += 1;
    }
    proof {
        let whole = payload@;
        let tail = whole.subrange(32, n as int);
        let decoded = spec_decode_ids(tail);
        assert(decoded.len() == elems);
        assert forall|k: int| 0 <= k < elems implies late_users@[k] == decoded[k] by {
            assert(tail.subrange(8 * k, 8 * k + 8) =~= whole.subrange(32 + 8 * k, 40 + 8 * k));
        }
        assert(late_users@ =~= decoded);
    }
    Ok(LatePublicationData { group_id, parent_id, late_users })
}

/// Encodes a group-voting payload.
pub fn encode_voting(d: &GroupVotingData) -> (r: Vec<u8>)
    requires
        d.success_ratio.wf(),
    ensures
        r@ == spec_encode_voting(d@),
{
    let mut out = u64_to_le_bytes(GROUP_VOTING_ID);
    let mut internal = u64_to_le_bytes(d.internal_id);
    out.append(&mut internal);
    let mut group = u64_to_le_bytes(d.group_id);
    out.append(&mut group);
    let mut num = u64_to_le_bytes(d.success_ratio.num as u64);
    out.append(&mut num);
    let mut den = u64_to_le_bytes(d.success_ratio.den as u64);
    out.append(&mut den);
    let mut dlen = u64_to_le_bytes(d.internal_data.len() as u64);
    out.append(&mut dlen);
    let mut data = slice_to_vec(d.internal_data.as_slice());
    out.append(&mut data);
    out
}

/// Decodes a group-voting payload; fails on any blob that
/// [`spec_decode_voting`] rejects, and on no other.
pub fn decode_voting(payload: &Vec<u8>) -> (r: CommonResult<GroupVotingData>)
    ensures
        spec_decode_voting(payload@) matches Some(v) ==> (r matches Ok(d) && d@ == v
            && d.success_ratio.wf()),
        spec_decode_voting(payload@) is None ==> r == Err::<GroupVotingData, CommonError>(
            CommonError::PayloadDecode { variant: GROUP_VOTING_ID },
        ),
{
    let s = payload.as_slice();
    let n = s.len();
    if n < 48 {
        return Err(CommonError::PayloadDecode { variant: GROUP_VOTING_ID });
    }
    if read_u64(s, 0) != GROUP_VOTING_ID {
        return Err(CommonError::PayloadDecode { variant: GROUP_VOTING_ID });
    }
    let internal_id = read_u64(s, 8);
    let group_id = read_u64(s, 16);
    let num = read_u64(s, 24);
    let den = read_u64(s, 32);
    let dlen = read_u64(s, 40);
    if dlen != (n as u64) - 48 {
        return Err(CommonError::PayloadDecode { variant: GROUP_VOTING_ID });
    }
    if den < 1 || den > u32::MAX as u64 || num > den {
        return Err(CommonError::PayloadDecode { variant: GROUP_VOTING_ID });
    }
    let internal_data = slice_to_vec(slice_subrange(s, 48, n));
    Ok(
        GroupVotingData {
            internal_id,
            group_id,
            success_ratio: Ratio { num: num as u32, den: den as u32 },
            internal_data,
        },
    )
}

/// Encoding a list of ids and reading it back yields the same list.
pub proof fn lemma_ids_round_trip(ids: Seq<Id>)
    ensures
        spec_encode_ids(ids).len() == 8 * ids.len(),
        spec_decode_ids(spec_encode_ids(ids)) == ids,
    decreases ids.len(),
{
    lemma_auto_spec_u64_to_from_le_bytes();
    let enc = spec_encode_ids(ids);
    if ids.len() == 0 {
        assert(spec_decode_ids(enc) =~= ids);
    } else {
        let dl = ids.drop_last();
        lemma_ids_round_trip(dl);
        let encdl = spec_encode_ids(dl);
        assert forall|i: int| 0 <= i < ids.len() implies spec_decode_ids(enc)[i] == ids[i] by {
            if i < dl.len() {
                assert(enc.subrange(8 * i, 8 * i + 8) =~= encdl.subrange(8 * i, 8 * i + 8));
                assert(spec_decode_ids(encdl)[i] == dl[i]);
            } else {
                assert(enc.subrange(8 * i, 8 * i + 8) =~= le8(ids.last()));
            }
        }
        assert(spec_decode_ids(enc) =~= ids);
    }
}

/// Round trip: a publication payload decodes back to itself under its own
/// variant.
pub proof fn lemma_publication_round_trip(d: PublicationData)
    ensures
        spec_decode_publication(spec_encode_publication(d)) == Some(d),
{
    lemma_auto_spec_u64_to_from_le_bytes();
    let enc = spec_encode_publication(d);
    assert(enc.subrange(0, 8) =~= le8(PUBLICATION_ID));
    assert(enc.subrange(8, 16) =~= le8(d.group_id));
}

/// Round trip: a late-publication payload decodes back to itself under its
/// own variant.
pub proof fn lemma_late_round_trip(d: LatePublicationDataV)
    requires
        d.late_users.len() <= u64::MAX,
    ensures
        spec_decode_late(spec_encode_late(d)) == Some(d),
{
    lemma_auto_spec_u64_to_from_le_bytes();
    lemma_ids_round_trip(d.late_users);
    let enc = spec_encode_late(d);
    assert(enc.subrange(0, 8) =~= le8(LATE_PUBLICATION_ID));
    assert(enc.subrange(8, 16) =~= le8(d.group_id));
    assert(enc.subrange(16, 24) =~= le8(d.parent_id));
    assert(enc.subrange(24, 32) =~= le8(d.late_users.len() as u64));
    assert(enc.subrange(32, enc.len() as int) =~= spec_encode_ids(d.late_users));
    let got = spec_decode_late(enc);
    assert(got matches Some(v) && v.late_users == d.late_users);
}

/// Round trip: a group-voting payload decodes back to itself under its own
/// variant.
pub proof fn lemma_voting_round_trip(d: GroupVotingDataV)
    requires
        d.success_ratio.wf(),
        d.internal_data.len() <= u64::MAX,
    ensures
        spec_decode_voting(spec_encode_voting(d)) == Some(d),
{
    lemma_auto_spec_u64_to_from_le_bytes();
    let enc = spec_encode_voting(d);
    assert(enc.subrange(0, 8) =~= le8(GROUP_VOTING_ID));
    assert(enc.subrange(8, 16) =~= le8(d.internal_id));
    assert(enc.subrange(16, 24) =~= le8(d.group_id));
    assert(enc.subrange(24, 32) =~= le8(d.success_ratio.num as u64));
    assert(enc.subrange(32, 40) =~= le8(d.success_ratio.den as u64));
    assert(enc.subrange(40, 48) =~= le8(d.internal_data.len() as u64));
    assert(enc.subrange(48, enc.len() as int) =~= d.internal_data);
}

/// The payload blobs of the three variants are mutually exclusive: a blob
/// that one variant decodes is rejected by the other two.
pub proof fn lemma_decoders_exclusive(s: Seq<u8>)
    ensures
        spec_decode_publication(s) is Some ==> spec_decode_late(s) is None && spec_decode_voting(
            s,
        ) is None,
        spec_decode_late(s) is Some ==> spec_decode_publication(s) is None && spec_decode_voting(
            s,
        ) is None,
        spec_decode_voting(s) is Some ==> spec_decode_publication(s) is None && spec_decode_late(
            s,
        ) is None,
{
}

/// The group-voting payload a blob holds, if it is one. A blob whose stored
/// ratio is not a fraction in `[0, 1]` is rejected.
pub open spec fn spec_decode_voting(s: Seq<u8>) -> Option<GroupVotingDataV> {
    if s.len() >= 48 && spec_u64_from_le_bytes(s.subrange(0, 8)) == GROUP_VOTING_ID {
        let num = spec_u64_from_le_bytes(s.subrange(24, 32));
        let den = spec_u64_from_le_bytes(s.subrange(32, 40));
        let dlen = spec_u64_from_le_bytes(s.subrange(40, 48));
        if s.len() == 48 + dlen && 1 <= den <= u32::MAX && num <= den {
            Some(
                GroupVotingDataV {
                    internal_id: spec_u64_from_le_bytes(s.subrange(8, 16)),
                    group_id: spec_u64_from_le_bytes(s.subrange(16, 24)),
                    success_ratio: Ratio { num: num as u32, den: den as u32 },
                    internal_data: s.subrange(48, s.len() as int),
                },
            )
        } else {
            None
        }
    } else {
        None
    }
}

} // verus!
