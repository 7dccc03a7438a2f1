use first_program::errors::SampleError;
use first_program::instruction::ProgramInstruction;
use first_program::processor::{
    check_account_ownership, initialize_account, process, process_change_name,
    process_change_surname,
};
use first_program::state::{UserData, USERDATA_STATE_SPACE, USERDATA_STORAGE};

fn fresh_slot() -> Vec<u8> {
    vec![0_u8; 1024]
}

fn instruction(blocks: &[Vec<u8>]) -> Vec<u8> {
    borsh::to_vec(&blocks.to_vec()).unwrap()
}

fn initialize_data() -> Vec<u8> {
    instruction(&[vec![0u8]])
}

fn set_name_data(name: &str) -> Vec<u8> {
    instruction(&[vec![1u8], borsh::to_vec(&name.to_string()).unwrap()])
}

fn set_surname_data(surname: &str) -> Vec<u8> {
    instruction(&[vec![2u8], borsh::to_vec(&surname.to_string()).unwrap()])
}

fn record_of(slot: &[u8]) -> UserData {
    UserData::unpack_from_slice(slot).unwrap()
}

#[test]
fn test_initialize_pass() {
    let mut slot = fresh_slot();
    let result = process(&mut slot, &initialize_data());
    assert!(result.is_ok());
    assert_eq!(slot[0], 1);
}

#[test]
fn test_set_name() {
    let mut slot = fresh_slot();
    let result = process(&mut slot, &initialize_data());
    assert!(result.is_ok());

    let result = process(&mut slot, &set_name_data("first_name"));
    assert!(result.is_ok());
    let user = record_of(&slot);
    assert_eq!(user.name_as_ref(), "first_name");
    assert_eq!(user.surname_as_ref(), "");
    assert!(user.is_initialized());
}

#[test]
fn test_set_surname() {
    let mut slot = fresh_slot();
    let result = process(&mut slot, &initialize_data());
    assert!(result.is_ok());

    let result = process(&mut slot, &set_surname_data("surname_name"));
    assert!(result.is_ok());
    let user = record_of(&slot);
    assert_eq!(user.name_as_ref(), "");
    assert_eq!(user.surname_as_ref(), "surname_name");
}

#[test]
fn test_set_both_names() {
    let mut slot = fresh_slot();
    let result = process(&mut slot, &initialize_data());
    assert!(result.is_ok());

    let result = process(&mut slot, &set_name_data("first_name"));
    assert!(result.is_ok());

    let result = process(&mut slot, &set_surname_data("surname_name"));
    assert!(result.is_ok());
    let user = record_of(&slot);
    assert_eq!(user.name_as_ref(), "first_name");
    assert_eq!(user.surname_as_ref(), "surname_name");
}

#[test]
fn initialize_on_zeroed_slot_sets_flag_and_keeps_payload_empty() {
    let mut slot = fresh_slot();
    assert_eq!(initialize_account(&mut slot), Ok(()));
    assert_eq!(slot[0], 1);
    assert_eq!(&slot[1..5], &[0, 0, 0, 0]);
    let user = record_of(&slot);
    assert!(user.is_initialized());
    assert_eq!(user.name_as_ref(), "");
    assert_eq!(user.surname_as_ref(), "");
}

#[test]
fn initialize_then_set_name_then_surname() {
    let mut slot = fresh_slot();
    assert_eq!(process(&mut slot, &initialize_data()), Ok(()));
    assert_eq!(process(&mut slot, &set_name_data("Ada")), Ok(()));
    assert_eq!(process(&mut slot, &set_surname_data("Lovelace")), Ok(()));
    let user = record_of(&slot);
    assert!(user.is_initialized());
    assert_eq!(user.name_as_ref(), "Ada");
    assert_eq!(user.surname_as_ref(), "Lovelace");
}

#[test]
fn exact_slot_bytes_after_setting_both_fields() {
    let mut slot = fresh_slot();
    assert_eq!(process(&mut slot, &initialize_data()), Ok(()));
    assert_eq!(process(&mut slot, &set_name_data("Ada")), Ok(()));
    assert_eq!(process(&mut slot, &set_surname_data("Lovelace")), Ok(()));
    let mut expected = vec![1u8, 19, 0, 0, 0, 3, 0, 0, 0, b'A', b'd', b'a', 8, 0, 0, 0];
    expected.extend_from_slice(b"Lovelace");
    assert_eq!(&slot[..expected.len()], &expected[..]);
    assert!(slot[expected.len()..].iter().all(|b| *b == 0));
}

#[test]
fn initialize_twice_is_rejected_and_slot_kept() {
    let mut slot = fresh_slot();
    assert_eq!(process(&mut slot, &initialize_data()), Ok(()));
    let after_first = slot.clone();
    assert_eq!(
        process(&mut slot, &initialize_data()),
        Err(SampleError::AlreadyInitializedState)
    );
    assert_eq!(slot, after_first);
}

#[test]
fn initialize_after_name_on_uninitialized_slot() {
    let mut slot = fresh_slot();
    assert_eq!(process_change_name(&mut slot, "Ada".to_string()), Ok(()));
    let user = record_of(&slot);
    assert!(!user.is_initialized());
    assert_eq!(user.name_as_ref(), "Ada");
    assert_eq!(initialize_account(&mut slot), Ok(()));
    let user = record_of(&slot);
    assert!(user.is_initialized());
    assert_eq!(user.name_as_ref(), "Ada");
}

#[test]
fn set_name_twice_gives_same_slot() {
    let mut slot = fresh_slot();
    assert_eq!(process(&mut slot, &initialize_data()), Ok(()));
    assert_eq!(process_change_surname(&mut slot, "Lovelace".to_string()), Ok(()));
    assert_eq!(process_change_name(&mut slot, "Ada".to_string()), Ok(()));
    let once = slot.clone();
    assert_eq!(process_change_name(&mut slot, "Ada".to_string()), Ok(()));
    assert_eq!(slot, once);
}

#[test]
fn set_surname_on_uninitialized_slot_materializes_record() {
    let mut slot = fresh_slot();
    assert_eq!(process_change_surname(&mut slot, "Lovelace".to_string()), Ok(()));
    let user = record_of(&slot);
    assert!(!user.is_initialized());
    assert_eq!(user.name_as_ref(), "");
    assert_eq!(user.surname_as_ref(), "Lovelace");
}

#[test]
fn set_name_back_to_empty_clears_payload() {
    let mut slot = fresh_slot();
    assert_eq!(initialize_account(&mut slot), Ok(()));
    assert_eq!(process_change_name(&mut slot, "Ada".to_string()), Ok(()));
    assert_eq!(process_change_name(&mut slot, String::new()), Ok(()));
    assert_eq!(&slot[..5], &[1, 0, 0, 0, 0]);
    assert!(slot[5..].iter().all(|b| *b == 0));
}

#[test]
fn decode_initialize() {
    assert_eq!(
        ProgramInstruction::unpack(&initialize_data()),
        Ok(ProgramInstruction::InitializeAccount)
    );
}

#[test]
fn decode_initialize_ignores_extra_blocks() {
    let data = instruction(&[vec![0u8, 7], vec![1, 2, 3]]);
    assert_eq!(
        ProgramInstruction::unpack(&data),
        Ok(ProgramInstruction::InitializeAccount)
    );
}

#[test]
fn decode_set_name_and_surname() {
    assert_eq!(
        ProgramInstruction::unpack(&set_name_data("Ada")),
        Ok(ProgramInstruction::SetName { name: "Ada".to_string() })
    );
    assert_eq!(
        ProgramInstruction::unpack(&set_surname_data("Lovelace")),
        Ok(ProgramInstruction::SetSurname { surname: "Lovelace".to_string() })
    );
}

#[test]
fn decode_set_name_with_non_ascii_text() {
    assert_eq!(
        ProgramInstruction::unpack(&set_name_data("Zoë")),
        Ok(ProgramInstruction::SetName { name: "Zoë".to_string() })
    );
}

#[test]
fn decode_bytes_written_by_hand() {
    // one block [1], then one block holding the text "Al"
    let data = [2u8, 0, 0, 0, 1, 0, 0, 0, 1, 6, 0, 0, 0, 2, 0, 0, 0, b'A', b'l'];
    assert_eq!(
        ProgramInstruction::unpack(&data),
        Ok(ProgramInstruction::SetName { name: "Al".to_string() })
    );
}

#[test]
fn decode_rejects_unknown_tag_nine() {
    assert_eq!(
        ProgramInstruction::unpack(&instruction(&[vec![9u8]])),
        Err(SampleError::DeserializationFailure)
    );
}

#[test]
fn decode_rejects_every_tag_above_two() {
    for tag in 3u8..=255 {
        assert_eq!(
            ProgramInstruction::unpack(&instruction(&[vec![tag]])),
            Err(SampleError::DeserializationFailure)
        );
    }
}

#[test]
fn decode_rejects_empty_first_block() {
    assert_eq!(
        ProgramInstruction::unpack(&instruction(&[vec![]])),
        Err(SampleError::DeserializationFailure)
    );
}

#[test]
fn decode_rejects_no_blocks() {
    assert_eq!(
        ProgramInstruction::unpack(&instruction(&[])),
        Err(SampleError::DeserializationFailure)
    );
}

#[test]
fn decode_rejects_missing_text_block() {
    assert_eq!(
        ProgramInstruction::unpack(&instruction(&[vec![1u8]])),
        Err(SampleError::DeserializationFailure)
    );
    assert_eq!(
        ProgramInstruction::unpack(&instruction(&[vec![2u8]])),
        Err(SampleError::DeserializationFailure)
    );
}

#[test]
fn decode_rejects_invalid_utf8_text() {
    let data = instruction(&[vec![1u8], vec![2, 0, 0, 0, 0xff, 0xfe]]);
    assert_eq!(
        ProgramInstruction::unpack(&data),
        Err(SampleError::DeserializationFailure)
    );
}

#[test]
fn decode_rejects_text_block_with_trailing_bytes() {
    let data = instruction(&[vec![1u8], vec![1, 0, 0, 0, b'A', b'x']]);
    assert_eq!(
        ProgramInstruction::unpack(&data),
        Err(SampleError::DeserializationFailure)
    );
}

#[test]
fn decode_rejects_malformed_outer_encoding() {
    assert_eq!(
        ProgramInstruction::unpack(&[]),
        Err(SampleError::DeserializationFailure)
    );
    assert_eq!(
        ProgramInstruction::unpack(&[1, 0, 0, 0, 5, 0, 0, 0, 0]),
        Err(SampleError::DeserializationFailure)
    );
    let mut data = initialize_data();
    data.push(0);
    assert_eq!(
        ProgramInstruction::unpack(&data),
        Err(SampleError::DeserializationFailure)
    );
}

#[test]
fn process_rejects_malformed_instruction_without_touching_slot() {
    let mut slot = fresh_slot();
    slot[0] = 1;
    let before = slot.clone();
    assert_eq!(
        process(&mut slot, &instruction(&[vec![]])),
        Err(SampleError::DeserializationFailure)
    );
    assert_eq!(slot, before);
}

#[test]
fn process_rejects_small_slot() {
    let mut slot = vec![0_u8; USERDATA_STATE_SPACE - 1];
    assert_eq!(
        process(&mut slot, &initialize_data()),
        Err(SampleError::SlotTooSmall)
    );
    assert!(slot.iter().all(|b| *b == 0));
}

#[test]
fn process_keeps_bytes_past_the_layout() {
    let mut slot = vec![7_u8; USERDATA_STATE_SPACE + 3];
    slot[0] = 0;
    slot[1..5].copy_from_slice(&[0, 0, 0, 0]);
    assert_eq!(process(&mut slot, &set_name_data("Ada")), Ok(()));
    assert_eq!(&slot[USERDATA_STATE_SPACE..], &[7, 7, 7]);
    assert_eq!(record_of(&slot).name_as_ref(), "Ada");
}

#[test]
fn set_name_too_large_is_rejected_and_slot_kept() {
    let mut slot = fresh_slot();
    assert_eq!(process(&mut slot, &initialize_data()), Ok(()));
    let before = slot.clone();
    let name = "x".repeat(USERDATA_STORAGE);
    assert_eq!(
        process_change_name(&mut slot, name),
        Err(SampleError::RecordTooLarge)
    );
    assert_eq!(slot, before);
}

#[test]
fn process_on_corrupt_slot_is_rejected() {
    let mut slot = fresh_slot();
    slot[1] = 4;
    slot[5..9].copy_from_slice(&[9, 0, 0, 0]);
    let before = slot.clone();
    assert_eq!(
        process(&mut slot, &set_name_data("Ada")),
        Err(SampleError::CorruptState)
    );
    assert_eq!(slot, before);
}

#[test]
fn ownership_check_skips_last_account() {
    let program = [3u8; 32];
    let other = [4u8; 32];
    assert_eq!(check_account_ownership(&program, &[]), Ok(()));
    assert_eq!(check_account_ownership(&program, &[other]), Ok(()));
    assert_eq!(check_account_ownership(&program, &[program, other]), Ok(()));
    assert_eq!(
        check_account_ownership(&program, &[program, other, program]),
        Err(SampleError::IncorrectProgramId)
    );
}

#[test]
fn error_codes_follow_declaration_order() {
    assert_eq!(SampleError::DeserializationFailure.code(), 0);
    assert_eq!(SampleError::AlreadyInitializedState.code(), 1);
    assert_eq!(SampleError::CorruptState.code(), 2);
    assert_eq!(SampleError::RecordTooLarge.code(), 3);
    assert_eq!(SampleError::MissingAccount.code(), 4);
    assert_eq!(SampleError::SlotTooSmall.code(), 5);
    assert_eq!(SampleError::IncorrectProgramId.code(), 6);
}
