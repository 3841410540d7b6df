//! The persisted drop record and its fixed byte layout.
//!
//! Layout, little-endian and without padding:
//! `creator: 32 bytes | latitude: i64 | longitude: i64 | reward_amount: u64 | is_claimed: u8`.

use crate::bytes::{
    lemma_i64_le_bytes_roundtrip, lemma_i64_le_roundtrip, lemma_u64_le_bytes_roundtrip,
    lemma_u64_le_roundtrip, read_i64_le, read_u64_le, spec_i64_from_le, spec_i64_to_le,
    spec_u64_from_le, spec_u64_to_le, write_i64_le, write_u64_le,
};
use crate::error::DropError;
use pinocchio::pubkey::Pubkey;
use vstd::prelude::*;

verus! {

/// Number of bytes of an identity.
pub const KEY_LEN: usize = 32;

/// Number of bytes of an encoded record.
pub const DROP_LEN: usize = 57;

/// Offset of the latitude in an encoded record.
pub const LATITUDE_AT: usize = 32;

/// Offset of the longitude in an encoded record.
pub const LONGITUDE_AT: usize = 40;

/// Offset of the reward in an encoded record.
pub const REWARD_AT: usize = 48;

/// Offset of the claim flag in an encoded record.
pub const CLAIMED_AT: usize = 56;

/// One reward offer bound to a location.
#[derive(Clone, Copy, Debug, PartialEq, Eq)]
pub struct Drop {
    /// Identity of the account that funded the drop.
    pub creator: Pubkey,
    /// Latitude in degrees scaled by 10,000,000.
    pub latitude: i64,
    /// Longitude in degrees scaled by 10,000,000.
    pub longitude: i64,
    /// Reward in the smallest currency unit.
    pub reward_amount: u64,
    /// 1 once the reward has been paid out, 0 before.
    pub is_claimed: u8,
}

/// A record as a mathematical value.
pub struct DropView {
    pub creator: Seq<u8>,
    pub latitude: i64,
    pub longitude: i64,
    pub reward_amount: u64,
    pub is_claimed: u8,
}

impl DropView {
    /// The creator is a full identity.
    pub open spec fn wf(self) -> bool {
        self.creator.len() == KEY_LEN
    }

    /// Whether the reward has been paid out.
    pub open spec fn claimed(self) -> bool {
        self.is_claimed == 1
    }

    /// The bytes that persist this record.
    pub open spec fn encode(self) -> Seq<u8> {
        self.creator + spec_i64_to_le(self.latitude) + spec_i64_to_le(self.longitude)
            + spec_u64_to_le(self.reward_amount) + seq![self.is_claimed]
    }

    /// The record that the given bytes persist.
    pub open spec fn decode(bytes: Seq<u8>) -> DropView
        recommends
            bytes.len() == DROP_LEN,
    {
        DropView {
            creator: bytes.subrange(0, LATITUDE_AT as int),
            latitude: spec_i64_from_le(bytes.subrange(LATITUDE_AT as int, LONGITUDE_AT as int)),
            longitude: spec_i64_from_le(bytes.subrange(LONGITUDE_AT as int, REWARD_AT as int)),
            reward_amount: spec_u64_from_le(bytes.subrange(REWARD_AT as int, CLAIMED_AT as int)),
            is_claimed: bytes[CLAIMED_AT as int],
        }
    }

    /// This record with the claim flag set.
    pub open spec fn mark_claimed(self) -> DropView {
        DropView { is_claimed: 1, ..self }
    }
}

impl View for Drop {
    type V = DropView;

    open spec fn view(&self) -> DropView {
        DropView {
            creator: self.creator@,
            latitude: self.latitude,
            longitude: self.longitude,
            reward_amount: self.reward_amount,
            is_claimed: self.is_claimed,
        }
    }
}

/// Decoding the bytes of a record gives the record back.
pub proof fn lemma_decode_encode(v: DropView)
    requires
        v.wf(),
    ensures
        v.encode().len() == DROP_LEN,
        DropView::decode(v.encode()) == v,
{
    lemma_i64_le_roundtrip(v.latitude);
    lemma_i64_le_roundtrip(v.longitude);
    lemma_u64_le_roundtrip(v.reward_amount);
    let bytes = v.encode();
    assert(bytes.subrange(0, LATITUDE_AT as int) =~= v.creator);
}

/// Encoding the record that 57 bytes persist gives the bytes back.
pub proof fn lemma_encode_decode(bytes: Seq<u8>)
    requires
        bytes.len() == DROP_LEN,
    ensures
        DropView::decode(bytes).wf(),
        DropView::decode(bytes).encode() == bytes,
{
    lemma_i64_le_bytes_roundtrip(bytes.subrange(LATITUDE_AT as int, LONGITUDE_AT as int));
    lemma_i64_le_bytes_roundtrip(bytes.subrange(LONGITUDE_AT as int, REWARD_AT as int));
    lemma_u64_le_bytes_roundtrip(bytes.subrange(REWARD_AT as int, CLAIMED_AT as int));
}

/// Setting the claim flag of a record changes the last byte of its encoding
/// and no other.
pub proof fn lemma_mark_claimed_bytes(bytes: Seq<u8>)
    requires
        bytes.len() == DROP_LEN,
    ensures
        DropView::decode(bytes).mark_claimed().encode() == bytes.update(CLAIMED_AT as int, 1u8),
{
    lemma_encode_decode(bytes);
}

impl Default for Drop {
    /// The record of all zero bytes: no creator, no location, no reward, unclaimed.
    fn default() -> (d: Drop)
        ensures
            d@ == (DropView {
                creator: Seq::new(KEY_LEN as nat, |i: int| 0u8),
                latitude: 0,
                longitude: 0,
                reward_amount: 0,
                is_claimed: 0,
            }),
    {
        let d = Drop {
            creator: [0u8; KEY_LEN],
            latitude: 0,
            longitude: 0,
            reward_amount: 0,
            is_claimed: 0,
        };
        assert(d.creator@ =~= Seq::new(KEY_LEN as nat, |i: int| 0u8));
        d
    }
}

/// Copies the identity that starts a byte buffer.
pub fn read_key(bytes: &[u8]) -> (key: Pubkey)
    requires
        bytes@.len() >= KEY_LEN,
    ensures
        key@ == bytes@.subrange(0, KEY_LEN as int),
{
    let mut key: Pubkey = [0u8; KEY_LEN];
    let mut i: usize = 0;
    while i < KEY_LEN
        invariant
            i <= KEY_LEN,
            bytes@.len() >= KEY_LEN,
            forall|j: int| 0 <= j < i ==> key@[j] == bytes@[j],
        decreases KEY_LEN - i,
    {
        key[i] = bytes[i];
        i += 1;
    }
    key
}

/// Stores an identity at the start of a byte buffer, leaving the rest as it was.
pub fn write_key(buf: &mut [u8], key: &Pubkey)
    requires
        old(buf)@.len() >= KEY_LEN,
    ensures
        final(buf)@ == key@ + old(buf)@.skip(KEY_LEN as int),
{
    let mut i: usize = 0;
    while i < KEY_LEN
        invariant
            i <= KEY_LEN,
            buf@.len() == old(buf)@.len(),
            buf@.len() >= KEY_LEN,
            forall|j: int| 0 <= j < i ==> buf@[j] == key@[j],
            forall|j: int| i <= j < buf@.len() ==> buf@[j] == old(buf)@[j],
        decreases KEY_LEN - i,
    {
        buf[i] = key[i];
        i += 1;
    }
}

impl Drop {
    /// Whether the reward has been paid out.
    pub fn claimed(&self) -> (c: bool)
        ensures
            c == self@.claimed(),
    {
        self.is_claimed == 1
    }

    /// Reads the record that starts a slot.
    ///
    /// A slot shorter than a record holds none; bytes after the record are
    /// not looked at.
    pub fn decode(slot: &[u8]) -> (r: Result<Drop, DropError>)
        ensures
            match r {
                Ok(d) => slot@.len() >= DROP_LEN && d@ == DropView::decode(
                    slot@.subrange(0, DROP_LEN as int),
                ),
                Err(e) => slot@.len() < DROP_LEN && e == DropError::SlotTooSmall,
            },
    {
        if slot.len() < DROP_LEN {
            return Err(DropError::SlotTooSmall);
        }
        let d = Drop {
            creator: read_key(slot),
            latitude: read_i64_le(slot, LATITUDE_AT),
            longitude: read_i64_le(slot, LONGITUDE_AT),
            reward_amount: read_u64_le(slot, REWARD_AT),
            is_claimed: slot[CLAIMED_AT],
        };
        proof {
            let bytes = slot@.subrange(0, DROP_LEN as int);
            assert(bytes.subrange(0, LATITUDE_AT as int) =~= slot@.subrange(0, KEY_LEN as int));
        }
        Ok(d)
    }

    /// Writes this record over the start of a slot.
    ///
    /// A slot shorter than a record is refused and left as it was; bytes
    /// after the record are kept.
    pub fn encode(&self, slot: &mut [u8]) -> (r: Result<(), DropError>)
        ensures
            match r {
                Ok(_) => {
                    &&& old(slot)@.len() >= DROP_LEN
                    &&& final(slot)@ == self@.encode() + old(slot)@.skip(DROP_LEN as int)
                },
                Err(e) => {
                    &&& old(slot)@.len() < DROP_LEN
                    &&& e == DropError::SlotTooSmall
                    &&& final(slot)@ == old(slot)@
                },
            },
    {
        if slot.len() < DROP_LEN {
            return Err(DropError::SlotTooSmall);
        }
        write_key(slot, &self.creator);
        write_i64_le(slot, LATITUDE_AT, self.latitude);
        write_i64_le(slot, LONGITUDE_AT, self.longitude);
        write_u64_le(slot, REWARD_AT, self.reward_amount);
        slot[CLAIMED_AT] = self.is_claimed;
        Ok(())
    }
}

} // verus!
