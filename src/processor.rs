//! The dispatcher: runs one decoded instruction against the target slot.
use crate::errors::SampleError;
use crate::instruction::{decode_instruction, Command, ProgramInstruction};
use crate::state::{
    lemma_pack_unpack_round_trip, packed, slot_image, unpacked, UserData, UserRecord,
    USERDATA_STATE_SPACE,
};
use vstd::prelude::*;

verus! {

/// The slot that an outcome leaves: the new contents on success, else the old ones.
pub open spec fn slot_after(outcome: Result<Seq<u8>, SampleError>, slot: Seq<u8>) -> Seq<u8> {
    match outcome {
        Ok(s) => s,
        Err(_) => slot,
    }
}

/// What `InitializeAccount` does to `slot`: a live record is refused, any
/// other record is marked live and packed back.
pub open spec fn initialize_outcome(slot: Seq<u8>) -> Result<Seq<u8>, SampleError> {
    match unpacked(slot) {
        Err(e) => Err(e),
        Ok(r) => if r.is_initialized {
            Err(SampleError::AlreadyInitializedState)
        } else {
            packed(UserRecord { is_initialized: true, ..r }, slot)
        },
    }
}

/// What `SetName` does to `slot`: the record's name is replaced and the
/// record packed back, whether or not it was live.
pub open spec fn set_name_outcome(slot: Seq<u8>, name: Seq<char>) -> Result<Seq<u8>, SampleError> {
    match unpacked(slot) {
        Err(e) => Err(e),
        Ok(r) => packed(UserRecord { name, ..r }, slot),
    }
}

/// What `SetSurname` does to `slot`: the record's surname is replaced and the
/// record packed back, whether or not it was live.
pub open spec fn set_surname_outcome(slot: Seq<u8>, surname: Seq<char>) -> Result<
    Seq<u8>,
    SampleError,
> {
    match unpacked(slot) {
        Err(e) => Err(e),
        Ok(r) => packed(UserRecord { surname, ..r }, slot),
    }
}

/// What the command `c` does to `slot`.
pub open spec fn command_outcome(slot: Seq<u8>, c: Command) -> Result<Seq<u8>, SampleError> {
    match c {
        Command::InitializeAccount => initialize_outcome(slot),
        Command::SetName(name) => set_name_outcome(slot, name),
        Command::SetSurname(surname) => set_surname_outcome(slot, surname),
    }
}

/// What the instruction bytes `input` do to `slot`: bytes that encode no
/// instruction are refused before the slot is read.
pub open spec fn process_outcome(slot: Seq<u8>, input: Seq<u8>) -> Result<Seq<u8>, SampleError> {
    match decode_instruction(input) {
        None => Err(SampleError::DeserializationFailure),
        Some(c) => command_outcome(slot, c),
    }
}

/// Whether `a` and `b` are the same account key.
fn same_key(a: &[u8; 32], b: &[u8; 32]) -> (r: bool)
    ensures
        r == (a@ == b@),
{
    let mut k: usize = 0;
    while k < 32
        invariant
            k <= 32,
            forall|j: int| 0 <= j < k ==> a@[j] == b@[j],
        decreases 32 - k,
    {
        if a[k] != b[k] {
            return false;
        }
        k = k + 1;
    }
    assert(a@ =~= b@);
    true
}

/// Checks that every account but the last (the program's own, which comes
/// last) is owned by the program: `owners` holds each account's owner key,
/// in the order of the accounts.
pub fn check_account_ownership(program_id: &[u8; 32], owners: &[[u8; 32]]) -> (r: Result<
    (),
    SampleError,
>)
    ensures
        r is Ok <==> forall|i: int| 0 <= i < owners@.len() - 1 ==> #[trigger] owners@[i]@ == program_id@,
        r matches Err(e) ==> e == SampleError::IncorrectProgramId,
{
    if owners.len() == 0 {
        return Ok(());
    }
    let mut i: usize = 0;
    while i < owners.len() - 1
        invariant
            0 < owners@.len(),
            i <= owners@.len() - 1,
            forall|j: int| 0 <= j < i ==> #[trigger] owners@[j]@ == program_id@,
        decreases owners@.len() - 1 - i,
    {
        if !same_key(&owners[i], program_id) {
            return Err(SampleError::IncorrectProgramId);
        }
        i = i + 1;
    }
    Ok(())
}

/// Marks the record in `slot` live. On an error `slot` is left as it was.
pub fn initialize_account(slot: &mut [u8]) -> (r: Result<(), SampleError>)
    ensures
        match r {
            Ok(_) => initialize_outcome(old(slot)@) == Ok::<Seq<u8>, SampleError>(final(slot)@),
            Err(e) => initialize_outcome(old(slot)@) == Err::<Seq<u8>, SampleError>(e)
                && final(slot)@ == old(slot)@,
        },
{
    let mut account_state = match UserData::unpack_from_slice(slot) {
        Ok(d) => d,
        Err(e) => return Err(e),
    };
    if account_state.is_initialized() {
        return Err(SampleError::AlreadyInitializedState);
    }
    account_state.set_initialized(true);
    account_state.pack_into_slice(slot)
}

/// Replaces the name of the record in `slot`. On an error `slot` is left as it was.
pub fn process_change_name(slot: &mut [u8], name: String) -> (r: Result<(), SampleError>)
    ensures
        match r {
            Ok(_) => set_name_outcome(old(slot)@, name@) == Ok::<Seq<u8>, SampleError>(
                final(slot)@,
            ),
            Err(e) => set_name_outcome(old(slot)@, name@) == Err::<Seq<u8>, SampleError>(e)
                && final(slot)@ == old(slot)@,
        },
{
    let mut my_user = match UserData::unpack_from_slice(slot) {
        Ok(d) => d,
        Err(e) => return Err(e),
    };
    my_user.set_name(name);
    my_user.pack_into_slice(slot)
}

/// Replaces the surname of the record in `slot`. On an error `slot` is left as it was.
pub fn process_change_surname(slot: &mut [u8], surname: String) -> (r: Result<(), SampleError>)
    ensures
        match r {
            Ok(_) => set_surname_outcome(old(slot)@, surname@) == Ok::<Seq<u8>, SampleError>(
                final(slot)@,
            ),
            Err(e) => set_surname_outcome(old(slot)@, surname@) == Err::<Seq<u8>, SampleError>(e)
                && final(slot)@ == old(slot)@,
        },
{
    let mut my_user = match UserData::unpack_from_slice(slot) {
        Ok(d) => d,
        Err(e) => return Err(e),
    };
    my_user.set_surname(surname);
    my_user.pack_into_slice(slot)
}

/// Decodes `instruction_data` and runs it against `slot`. On an error `slot`
/// is left as it was.
pub fn process(slot: &mut [u8], instruction_data: &[u8]) -> (r: Result<(), SampleError>)
    ensures
        match r {
            Ok(_) => process_outcome(old(slot)@, instruction_data@) == Ok::<Seq<u8>, SampleError>(
                final(slot)@,
            ),
            Err(e) => process_outcome(old(slot)@, instruction_data@) == Err::<
                Seq<u8>,
                SampleError,
            >(e) && final(slot)@ == old(slot)@,
        },
{
    let instruction = match ProgramInstruction::unpack(instruction_data) {
        Ok(i) => i,
        Err(e) => return Err(e),
    };
    match instruction {
        ProgramInstruction::InitializeAccount => initialize_account(slot),
        ProgramInstruction::SetName { name } => process_change_name(slot, name),
        ProgramInstruction::SetSurname { surname } => process_change_surname(slot, surname),
    }
}

/// Setting the same name twice in a row leaves the slot as setting it once does.
pub proof fn lemma_set_name_idempotent(slot: Seq<u8>, name: Seq<char>)
    ensures
        ({
            let once = slot_after(set_name_outcome(slot, name), slot);
            slot_after(set_name_outcome(once, name), once) == once
        }),
{
    if let Ok(once) = set_name_outcome(slot, name) {
        let r = unpacked(slot)->Ok_0;
        let named = UserRecord { name, ..r };
        lemma_pack_unpack_round_trip(named, slot);
        assert(unpacked(once) == Ok::<UserRecord, SampleError>(named));
        assert(UserRecord { name, ..named } == named);
        assert(once == slot_image(named) + slot.skip(USERDATA_STATE_SPACE as int));
        assert(once.skip(USERDATA_STATE_SPACE as int) =~= slot.skip(USERDATA_STATE_SPACE as int));
        assert(packed(named, once) == Ok::<Seq<u8>, SampleError>(once));
    }
}

/// Once `InitializeAccount` has succeeded on a slot, a second one is refused
/// as already initialized (and so leaves the slot as the first left it).
pub proof fn lemma_initialize_twice_rejected(slot: Seq<u8>)
    ensures
        initialize_outcome(slot) matches Ok(once) ==> initialize_outcome(once) == Err::<
            Seq<u8>,
            SampleError,
        >(SampleError::AlreadyInitializedState),
{
    if let Ok(once) = initialize_outcome(slot) {
        let r = unpacked(slot)->Ok_0;
        let live = UserRecord { is_initialized: true, ..r };
        lemma_pack_unpack_round_trip(live, slot);
    }
}

} // verus!
