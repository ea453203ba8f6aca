use note_program::error::ProgramError;
use note_program::instruction::NoteInstruction;
use note_program::pubkey::Pubkey;

fn framed(text: &str) -> Vec<u8> {
    let mut bytes = (text.len() as u32).to_le_bytes().to_vec();
    bytes.extend_from_slice(text.as_bytes());
    bytes
}

fn create_bytes(title: &str, body: &str, authority: [u8; 32]) -> Vec<u8> {
    let mut bytes = vec![0u8];
    bytes.extend(framed(title));
    bytes.extend(framed(body));
    bytes.extend_from_slice(&authority);
    bytes
}

fn update_bytes(title: &str, body: &str) -> Vec<u8> {
    let mut bytes = vec![1u8];
    bytes.extend(framed(title));
    bytes.extend(framed(body));
    bytes
}

#[test]
fn unpack_empty_buffer_is_invalid_instruction_data() {
    assert_eq!(NoteInstruction::unpack(&[]), Err(ProgramError::InvalidInstructionData));
}

#[test]
fn unpack_discriminant_three_is_invalid_instruction_data() {
    assert_eq!(NoteInstruction::unpack(&[3]), Err(ProgramError::InvalidInstructionData));
}

#[test]
fn unpack_every_unknown_discriminant_is_invalid() {
    for tag in 3u8..=255 {
        let input = update_bytes("a", "b");
        let mut bytes = vec![tag];
        bytes.extend_from_slice(&input[1..]);
        assert_eq!(NoteInstruction::unpack(&bytes), Err(ProgramError::InvalidInstructionData));
    }
}

#[test]
fn unpack_create_carries_title_body_and_authority() {
    let authority = [7u8; 32];
    let input = create_bytes("groceries", "milk, eggs", authority);
    assert_eq!(
        NoteInstruction::unpack(&input),
        Ok(NoteInstruction::CreateNote {
            title: "groceries".to_string(),
            body: "milk, eggs".to_string(),
            authority: Pubkey::new_from_array(authority),
        })
    );
}

#[test]
fn unpack_create_from_exact_bytes() {
    let mut input = vec![0u8, 2, 0, 0, 0, b'h', b'i', 3, 0, 0, 0, b'y', b'o', b'u'];
    input.extend_from_slice(&[9u8; 32]);
    assert_eq!(
        NoteInstruction::unpack(&input),
        Ok(NoteInstruction::CreateNote {
            title: "hi".to_string(),
            body: "you".to_string(),
            authority: Pubkey::new_from_array([9u8; 32]),
        })
    );
}

#[test]
fn unpack_update_carries_title_and_body() {
    let input = update_bytes("todo", "water the plants");
    assert_eq!(
        NoteInstruction::unpack(&input),
        Ok(NoteInstruction::UpdateNote {
            title: "todo".to_string(),
            body: "water the plants".to_string(),
        })
    );
}

#[test]
fn unpack_update_with_empty_texts() {
    assert_eq!(
        NoteInstruction::unpack(&[1, 0, 0, 0, 0, 0, 0, 0, 0]),
        Ok(NoteInstruction::UpdateNote { title: String::new(), body: String::new() })
    );
}

#[test]
fn unpack_delete_has_no_payload() {
    assert_eq!(NoteInstruction::unpack(&[2]), Ok(NoteInstruction::DeleteNote));
}

#[test]
fn unpack_delete_ignores_what_follows_the_tag() {
    assert_eq!(NoteInstruction::unpack(&[2, 1, 2, 3]), Ok(NoteInstruction::DeleteNote));
}

#[test]
fn unpack_create_without_payload_is_invalid() {
    assert_eq!(NoteInstruction::unpack(&[0]), Err(ProgramError::InvalidInstructionData));
}

#[test]
fn unpack_update_without_payload_is_invalid() {
    assert_eq!(NoteInstruction::unpack(&[1]), Err(ProgramError::InvalidInstructionData));
}

#[test]
fn unpack_create_with_short_authority_is_invalid() {
    let mut input = create_bytes("a", "b", [1u8; 32]);
    input.pop();
    assert_eq!(NoteInstruction::unpack(&input), Err(ProgramError::InvalidInstructionData));
}

#[test]
fn unpack_create_with_trailing_byte_is_invalid() {
    let mut input = create_bytes("a", "b", [1u8; 32]);
    input.push(0);
    assert_eq!(NoteInstruction::unpack(&input), Err(ProgramError::InvalidInstructionData));
}

#[test]
fn unpack_create_without_authority_is_invalid() {
    let mut input = update_bytes("a", "b");
    input[0] = 0;
    assert_eq!(NoteInstruction::unpack(&input), Err(ProgramError::InvalidInstructionData));
}

#[test]
fn unpack_update_followed_by_an_authority_is_invalid() {
    let mut input = create_bytes("a", "b", [1u8; 32]);
    input[0] = 1;
    assert_eq!(NoteInstruction::unpack(&input), Err(ProgramError::InvalidInstructionData));
}

#[test]
fn unpack_truncated_title_is_invalid() {
    // The prefix announces five bytes and three follow.
    assert_eq!(
        NoteInstruction::unpack(&[1, 5, 0, 0, 0, b'a', b'b', b'c']),
        Err(ProgramError::InvalidInstructionData)
    );
}

#[test]
fn unpack_truncated_length_prefix_is_invalid() {
    assert_eq!(
        NoteInstruction::unpack(&[1, 1, 0, 0]),
        Err(ProgramError::InvalidInstructionData)
    );
}

#[test]
fn unpack_missing_body_is_invalid() {
    assert_eq!(
        NoteInstruction::unpack(&[1, 1, 0, 0, 0, b'a']),
        Err(ProgramError::InvalidInstructionData)
    );
}

#[test]
fn unpack_huge_length_prefix_is_invalid() {
    assert_eq!(
        NoteInstruction::unpack(&[1, 0xff, 0xff, 0xff, 0xff, b'a', 0, 0, 0, 0]),
        Err(ProgramError::InvalidInstructionData)
    );
}

#[test]
fn unpack_title_that_is_not_utf8_is_invalid() {
    assert_eq!(
        NoteInstruction::unpack(&[1, 2, 0, 0, 0, 0xc3, 0x28, 0, 0, 0, 0]),
        Err(ProgramError::InvalidInstructionData)
    );
}

#[test]
fn unpack_body_that_is_not_utf8_is_invalid() {
    assert_eq!(
        NoteInstruction::unpack(&[1, 0, 0, 0, 0, 1, 0, 0, 0, 0xff]),
        Err(ProgramError::InvalidInstructionData)
    );
}

#[test]
fn unpack_counts_bytes_not_characters() {
    // "né" is three bytes: the prefix must say 3.
    let input = [1u8, 3, 0, 0, 0, b'n', 0xc3, 0xa9, 0, 0, 0, 0];
    assert_eq!(
        NoteInstruction::unpack(&input),
        Ok(NoteInstruction::UpdateNote { title: "né".to_string(), body: String::new() })
    );
    let short = [1u8, 2, 0, 0, 0, b'n', 0xc3, 0xa9, 0, 0, 0, 0];
    assert_eq!(NoteInstruction::unpack(&short), Err(ProgramError::InvalidInstructionData));
}

#[test]
fn unpack_uses_the_length_prefix_lowest_byte_first() {
    let body = "x".repeat(258);
    let mut input = vec![1u8, 0, 0, 0, 0, 2, 1, 0, 0];
    input.extend_from_slice(body.as_bytes());
    assert_eq!(
        NoteInstruction::unpack(&input),
        Ok(NoteInstruction::UpdateNote { title: String::new(), body })
    );
}

#[test]
fn unpack_does_not_enforce_the_caps() {
    let title = "t".repeat(11);
    let input = update_bytes(&title, "b");
    assert_eq!(
        NoteInstruction::unpack(&input),
        Ok(NoteInstruction::UpdateNote { title, body: "b".to_string() })
    );
}

#[test]
fn unpack_create_agrees_with_borsh_on_the_payload() {
    let authority = [0xabu8; 32];
    let title = "célèbre".to_string();
    let body = "a body of text".to_string();
    let mut input = vec![0u8];
    input.extend(borsh::to_vec(&(title.clone(), body.clone(), authority)).unwrap());
    assert_eq!(
        NoteInstruction::unpack(&input),
        Ok(NoteInstruction::CreateNote {
            title,
            body,
            authority: Pubkey::new_from_array(authority),
        })
    );
}

#[test]
fn unpack_update_agrees_with_borsh_on_the_payload() {
    let title = "t".to_string();
    let body = "日本語".to_string();
    let mut input = vec![1u8];
    input.extend(borsh::to_vec(&(title.clone(), body.clone())).unwrap());
    assert_eq!(NoteInstruction::unpack(&input), Ok(NoteInstruction::UpdateNote { title, body }));
}
