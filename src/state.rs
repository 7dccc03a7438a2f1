//! The stored record and its fixed-capacity slot layout.
use crate::errors::SampleError;
use crate::wire::{
    decode_text_pair, encode_text_pair, lemma_text_pair_round_trip, prefix_u32, text_bytes,
    text_pair_of,
};
use vstd::bytes::*;
use vstd::prelude::*;
use vstd::slice::slice_subrange;
use vstd::utf8::*;

verus! {

/// Size of the initialization flag at the start of a slot.
pub const INITIALIZED_BYTE: usize = 1;

/// Size of the little-endian payload length that follows the flag.
pub const USERDATA_LENGTH: usize = 4;

/// Capacity of the payload region.
pub const USERDATA_STORAGE: usize = 1019;

/// Total size of a slot: flag, payload length and payload region.
pub const USERDATA_STATE_SPACE: usize = INITIALIZED_BYTE + USERDATA_LENGTH + USERDATA_STORAGE;

/// The record that a slot holds: whether it is live, and two text fields.
#[derive(Debug, PartialEq, Eq)]
pub struct UserData {
    is_initialized: bool,
    name: String,
    surname: String,
}

/// The mathematical value of a [`UserData`].
pub ghost struct UserRecord {
    pub is_initialized: bool,
    pub name: Seq<char>,
    pub surname: Seq<char>,
}

impl View for UserData {
    type V = UserRecord;

    closed spec fn view(&self) -> UserRecord {
        UserRecord { is_initialized: self.is_initialized, name: self.name@, surname: self.surname@ }
    }
}

/// The record of a slot whose payload is empty: both fields empty.
pub open spec fn empty_record(is_initialized: bool) -> UserRecord {
    UserRecord { is_initialized, name: Seq::empty(), surname: Seq::empty() }
}

/// The payload that stores `r`: nothing for a record with both fields empty,
/// else the two fields as length-prefixed text, name first.
pub open spec fn record_payload(r: UserRecord) -> Seq<u8> {
    if r.name.len() == 0 && r.surname.len() == 0 {
        Seq::empty()
    } else {
        text_bytes(r.name) + text_bytes(r.surname)
    }
}

/// Whether the payload of `r` fits in the payload region.
pub open spec fn fits(r: UserRecord) -> bool {
    record_payload(r).len() <= USERDATA_STORAGE
}

/// The flag byte written for `r`.
pub open spec fn flag_byte(r: UserRecord) -> u8 {
    if r.is_initialized {
        1
    } else {
        0
    }
}

/// The whole slot layout that stores `r`: flag, payload length, payload,
/// and zeros up to the end of the payload region.
pub open spec fn slot_image(r: UserRecord) -> Seq<u8> {
    let p = record_payload(r);
    seq![flag_byte(r)] + spec_u32_to_le_bytes(p.len() as u32) + p + Seq::new(
        (USERDATA_STORAGE - p.len()) as nat,
        |i: int| 0u8,
    )
}

/// What packing `r` into the slot `slot` gives: the slot with its layout
/// replaced by that of `r` and any byte past the layout kept, or the error.
pub open spec fn packed(r: UserRecord, slot: Seq<u8>) -> Result<Seq<u8>, SampleError> {
    if slot.len() < USERDATA_STATE_SPACE {
        Err(SampleError::SlotTooSmall)
    } else if !fits(r) {
        Err(SampleError::RecordTooLarge)
    } else {
        Ok(slot_image(r) + slot.skip(USERDATA_STATE_SPACE as int))
    }
}

/// The record that the slot `slot` holds, or the error. A zero payload length
/// gives the empty record; the flag byte decides `is_initialized` (any nonzero
/// byte counts as initialized).
pub open spec fn unpacked(slot: Seq<u8>) -> Result<UserRecord, SampleError> {
    if slot.len() < USERDATA_STATE_SPACE {
        Err(SampleError::SlotTooSmall)
    } else {
        let init = slot[0] != 0;
        let n = prefix_u32(slot.skip(1)) as int;
        if n == 0 {
            Ok(empty_record(init))
        } else if n > USERDATA_STORAGE {
            Err(SampleError::CorruptState)
        } else {
            match text_pair_of(slot.subrange(5, 5 + n)) {
                Some((a, b)) => Ok(UserRecord { is_initialized: init, name: a, surname: b }),
                None => Err(SampleError::CorruptState),
            }
        }
    }
}

impl Default for UserData {
    fn default() -> (r: UserData)
        ensures
            r@ == empty_record(false),
    {
        UserData { is_initialized: false, name: String::new(), surname: String::new() }
    }
}

impl UserData {
    /// Whether the record is live.
    pub fn is_initialized(&self) -> (r: bool)
        ensures
            r == self@.is_initialized,
    {
        self.is_initialized
    }

    /// Sets whether the record is live.
    pub fn set_initialized(&mut self, init_flag: bool)
        ensures
            final(self)@ == (UserRecord { is_initialized: init_flag, ..old(self)@ }),
    {
        self.is_initialized = init_flag;
    }

    /// Sets the name.
    pub fn set_name(&mut self, name: String)
        ensures
            final(self)@ == (UserRecord { name: name@, ..old(self)@ }),
    {
        self.name = name;
    }

    /// Sets the surname.
    pub fn set_surname(&mut self, surname: String)
        ensures
            final(self)@ == (UserRecord { surname: surname@, ..old(self)@ }),
    {
        self.surname = surname;
    }

    /// The name.
    pub fn name_as_ref(&self) -> (r: &String)
        ensures
            r@ == self@.name,
    {
        &self.name
    }

    /// The surname.
    pub fn surname_as_ref(&self) -> (r: &String)
        ensures
            r@ == self@.surname,
    {
        &self.surname
    }

    /// Writes this record into the first [`USERDATA_STATE_SPACE`] bytes of
    /// `dst`. On an error `dst` is left as it was.
    pub fn pack_into_slice(&self, dst: &mut [u8]) -> (r: Result<(), SampleError>)
        ensures
            match r {
                Ok(_) => packed(self@, old(dst)@) == Ok::<Seq<u8>, SampleError>(final(dst)@),
                Err(e) => packed(self@, old(dst)@) == Err::<Seq<u8>, SampleError>(e)
                    && final(dst)@ == old(dst)@,
            },
    {
        if dst.len() < USERDATA_STATE_SPACE {
            return Err(SampleError::SlotTooSmall);
        }
        proof {
            lemma_auto_spec_u32_to_from_le_bytes();
        }
        let payload: Vec<u8> = if self.name.as_str().is_empty() && self.surname.as_str().is_empty() {
            Vec::new()
        } else {
            let name_len = self.name.as_str().as_bytes().len();
            let surname_len = self.surname.as_str().as_bytes().len();
            if name_len > USERDATA_STORAGE || surname_len > USERDATA_STORAGE || 8 + name_len
                + surname_len > USERDATA_STORAGE {
                return Err(SampleError::RecordTooLarge);
            }
            match encode_text_pair(&self.name, &self.surname) {
                Some(v) => v,
                None => return Err(SampleError::RecordTooLarge),
            }
        };
        assert(payload@ == record_payload(self@));
        let plen = payload.len();
        let len_bytes = u32_to_le_bytes(plen as u32);
        let ghost before = dst@;
        dst[0] = if self.is_initialized {
            1u8
        } else {
            0u8
        };
        dst[1] = len_bytes[0];
        dst[2] = len_bytes[1];
        dst[3] = len_bytes[2];
        dst[4] = len_bytes[3];
        assert(dst@.subrange(1, 5) =~= spec_u32_to_le_bytes(plen as u32));
        let mut i: usize = 0;
        while i < USERDATA_STORAGE
            invariant
                i <= USERDATA_STORAGE,
                plen == payload@.len(),
                plen <= USERDATA_STORAGE,
                dst@.len() == before.len(),
                before.len() >= USERDATA_STATE_SPACE,
                dst@[0] == flag_byte(self@),
                dst@.subrange(1, 5) == spec_u32_to_le_bytes(plen as u32),
                forall|j: int| 0 <= j < i ==> #[trigger] dst@[5 + j] == (if j < plen {
                    payload@[j]
                } else {
                    0u8
                }),
                forall|j: int| 5 + i <= j < dst@.len() ==> #[trigger] dst@[j] == before[j],
            decreases USERDATA_STORAGE - i,
        {
            let v: u8 = if i < plen {
                payload[i]
            } else {
                0u8
            };
            let ghost prev = dst@;
            dst[5 + i] = v;
            assert(dst@ == prev.update(5 + i, v));
            assert(dst@.subrange(1, 5) =~= prev.subrange(1, 5));
            i = i + 1;
        }
        let ghost image = slot_image(self@);
        assert(image.len() == USERDATA_STATE_SPACE);
        assert forall|j: int| 0 <= j < dst@.len() implies dst@[j] == (image + before.skip(
            USERDATA_STATE_SPACE as int,
        ))[j] by {
            if 1 <= j < 5 {
                assert(dst@[j] == dst@.subrange(1, 5)[j - 1]);
            } else if 5 <= j < 5 + USERDATA_STORAGE {
                assert(dst@[5 + (j - 5)] == dst@[j]);
            }
        }
        assert(dst@ =~= image + before.skip(USERDATA_STATE_SPACE as int));
        Ok(())
    }

    /// Reads the record that the first [`USERDATA_STATE_SPACE`] bytes of `src` hold.
    pub fn unpack_from_slice(src: &[u8]) -> (r: Result<UserData, SampleError>)
        ensures
            match r {
                Ok(d) => unpacked(src@) == Ok::<UserRecord, SampleError>(d@),
                Err(e) => unpacked(src@) == Err::<UserRecord, SampleError>(e),
            },
    {
        if src.len() < USERDATA_STATE_SPACE {
            return Err(SampleError::SlotTooSmall);
        }
        let is_initialized = src[0] != 0;
        let len_bytes = slice_subrange(src, 1, 5);
        assert(len_bytes@ =~= src@.skip(1).take(4));
        let data_len = u32_from_le_bytes(len_bytes) as usize;
        if data_len == 0 {
            let mut d = UserData::default();
            d.set_initialized(is_initialized);
            return Ok(d);
        }
        if data_len > USERDATA_STORAGE {
            return Err(SampleError::CorruptState);
        }
        let payload = slice_subrange(src, 5, 5 + data_len);
        match decode_text_pair(payload) {
            Some((name, surname)) => Ok(UserData { is_initialized, name, surname }),
            None => Err(SampleError::CorruptState),
        }
    }
}

/// Round trip: packing a record that fits into a slot and unpacking that slot
/// gives the record back.
pub proof fn lemma_pack_unpack_round_trip(r: UserRecord, slot: Seq<u8>)
    requires
        slot.len() >= USERDATA_STATE_SPACE,
        fits(r),
    ensures
        packed(r, slot) matches Ok(s) && unpacked(s) == Ok::<UserRecord, SampleError>(r),
        slot_image(r).len() == USERDATA_STATE_SPACE,
{
    lemma_auto_spec_u32_to_from_le_bytes();
    let p = record_payload(r);
    let s = slot_image(r) + slot.skip(USERDATA_STATE_SPACE as int);
    assert(s.skip(1).take(4) =~= spec_u32_to_le_bytes(p.len() as u32));
    assert(prefix_u32(s.skip(1)) == p.len());
    assert(s[0] == flag_byte(r));
    if r.name.len() == 0 && r.surname.len() == 0 {
        assert(r.name =~= Seq::<char>::empty());
        assert(r.surname =~= Seq::<char>::empty());
    } else {
        assert(text_bytes(r.name).len() == 4 + encode_utf8(r.name).len());
        assert(text_bytes(r.surname).len() == 4 + encode_utf8(r.surname).len());
        assert(s.subrange(5, 5 + p.len() as int) =~= p);
        lemma_text_pair_round_trip(r.name, r.surname);
    }
}

/// A slot whose payload length is zero holds the record with both fields
/// empty, whatever its flag byte says of initialization.
pub proof fn lemma_empty_payload_is_default(slot: Seq<u8>)
    requires
        slot.len() >= USERDATA_STATE_SPACE,
        prefix_u32(slot.skip(1)) == 0,
    ensures
        unpacked(slot) == Ok::<UserRecord, SampleError>(empty_record(slot[0] != 0)),
        unpacked(slot) matches Ok(r) && r.name.len() == 0 && r.surname.len() == 0,
{
}

/// A record that does not fit is refused as too large, and (by the contract
/// of [`UserData::pack_into_slice`]) the slot is left as it was.
pub proof fn lemma_oversized_record_rejected(r: UserRecord, slot: Seq<u8>)
    requires
        slot.len() >= USERDATA_STATE_SPACE,
        !fits(r),
    ensures
        packed(r, slot) == Err::<Seq<u8>, SampleError>(SampleError::RecordTooLarge),
{
}

} // verus!
