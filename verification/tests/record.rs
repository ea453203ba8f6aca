use note_program::error::ProgramError;
use note_program::pubkey::Pubkey;
use note_program::state::NoteAccountState;
use note_program::text::byte_len;

fn note(authority: [u8; 32], title: &str, body: &str) -> NoteAccountState {
    NoteAccountState {
        authority: Pubkey::new_from_array(authority),
        title: title.to_string(),
        body: body.to_string(),
    }
}

#[test]
fn sizes_are_ten_hundred_and_their_sum_with_the_authority() {
    assert_eq!(NoteAccountState::MAX_TITLE_SIZE, 10);
    assert_eq!(NoteAccountState::MAX_BODY_SIZE, 100);
    assert_eq!(NoteAccountState::MAX_SIZE, 142);
}

#[test]
fn pubkey_keeps_its_bytes() {
    let mut bytes = [0u8; 32];
    for (i, b) in bytes.iter_mut().enumerate() {
        *b = i as u8;
    }
    assert_eq!(Pubkey::new_from_array(bytes).to_bytes(), bytes);
}

#[test]
fn pubkeys_are_compared_byte_by_byte() {
    let a = Pubkey::new_from_array([1u8; 32]);
    let mut other = [1u8; 32];
    assert!(a == Pubkey::new_from_array(other));
    other[31] = 2;
    assert!(a != Pubkey::new_from_array(other));
    other[31] = 1;
    other[0] = 0;
    assert!(a != Pubkey::new_from_array(other));
}

#[test]
fn pubkey_from_prefix_takes_the_first_32_bytes() {
    let mut bytes = vec![5u8; 32];
    bytes.extend_from_slice(&[6, 7]);
    assert_eq!(Pubkey::from_prefix(&bytes), Some(Pubkey::new_from_array([5u8; 32])));
    assert_eq!(Pubkey::from_prefix(&bytes[..32]), Some(Pubkey::new_from_array([5u8; 32])));
    assert_eq!(Pubkey::from_prefix(&bytes[..31]), None);
    assert_eq!(Pubkey::from_prefix(&[]), None);
}

#[test]
fn byte_len_counts_utf8_bytes() {
    assert_eq!(byte_len(&String::new()), 0);
    assert_eq!(byte_len(&"hello".to_string()), 5);
    assert_eq!(byte_len(&"héllo".to_string()), 6);
    assert_eq!(byte_len(&"日本語".to_string()), 9);
}

#[test]
fn to_bytes_lays_out_authority_title_body() {
    let bytes = note([3u8; 32], "hi", "you").to_bytes().unwrap();
    let mut expected = vec![3u8; 32];
    expected.extend_from_slice(&[2, 0, 0, 0, b'h', b'i', 3, 0, 0, 0, b'y', b'o', b'u']);
    assert_eq!(bytes, expected);
}

#[test]
fn to_bytes_of_the_empty_note_is_forty_bytes() {
    let bytes = note([0u8; 32], "", "").to_bytes().unwrap();
    assert_eq!(bytes, vec![0u8; 40]);
}

#[test]
fn to_bytes_takes_forty_bytes_and_the_texts() {
    let bytes = note([1u8; 32], "héllo", "日本語").to_bytes().unwrap();
    assert_eq!(bytes.len(), 40 + 6 + 9);
}

#[test]
fn to_bytes_agrees_with_borsh() {
    let authority = [0x5au8; 32];
    let n = note(authority, "shopping", "bread and butter, 2x");
    let expected = borsh::to_vec(&(authority, n.title.clone(), n.body.clone())).unwrap();
    assert_eq!(n.to_bytes(), Some(expected));
}

#[test]
fn deserialize_reads_exact_bytes() {
    let mut data = vec![8u8; 32];
    data.extend_from_slice(&[1, 0, 0, 0, b'a', 2, 0, 0, 0, b'b', b'c']);
    assert_eq!(NoteAccountState::deserialize(&data), Some(note([8u8; 32], "a", "bc")));
}

#[test]
fn deserialize_ignores_what_follows_the_body() {
    let mut data = note([8u8; 32], "a", "bc").to_bytes().unwrap();
    data.extend_from_slice(&[0xff; 20]);
    assert_eq!(NoteAccountState::deserialize(&data), Some(note([8u8; 32], "a", "bc")));
}

#[test]
fn deserialize_of_a_zeroed_slot_is_the_empty_note() {
    assert_eq!(NoteAccountState::deserialize(&[0u8; 142]), Some(note([0u8; 32], "", "")));
    assert_eq!(NoteAccountState::deserialize(&[0u8; 40]), Some(note([0u8; 32], "", "")));
}

#[test]
fn deserialize_of_too_few_bytes_fails() {
    assert_eq!(NoteAccountState::deserialize(&[]), None);
    assert_eq!(NoteAccountState::deserialize(&[0u8; 31]), None);
    assert_eq!(NoteAccountState::deserialize(&[0u8; 32]), None);
    assert_eq!(NoteAccountState::deserialize(&[0u8; 35]), None);
    assert_eq!(NoteAccountState::deserialize(&[0u8; 36]), None);
    assert_eq!(NoteAccountState::deserialize(&[0u8; 39]), None);
}

#[test]
fn deserialize_of_a_truncated_text_fails() {
    let mut data = note([8u8; 32], "title", "body").to_bytes().unwrap();
    data.pop();
    assert_eq!(NoteAccountState::deserialize(&data), None);
}

#[test]
fn deserialize_of_text_that_is_not_utf8_fails() {
    let mut data = vec![8u8; 32];
    data.extend_from_slice(&[1, 0, 0, 0, 0x80, 0, 0, 0, 0]);
    assert_eq!(NoteAccountState::deserialize(&data), None);
}

#[test]
fn deserialize_does_not_enforce_the_caps() {
    let long = note([8u8; 32], "a title of more than ten bytes", "b");
    let data = long.to_bytes().unwrap();
    assert_eq!(NoteAccountState::deserialize(&data), Some(long));
}

#[test]
fn deserialize_agrees_with_borsh() {
    let authority = [0x11u8; 32];
    let data = borsh::to_vec(&(authority, "ünï".to_string(), "cödé".to_string())).unwrap();
    assert_eq!(NoteAccountState::deserialize(&data), Some(note(authority, "ünï", "cödé")));
}

#[test]
fn serialize_writes_the_note_and_keeps_the_rest_of_the_slot() {
    let n = note([4u8; 32], "ab", "c");
    let mut slot = vec![0xeeu8; 50];
    assert_eq!(n.serialize(&mut slot), Ok(()));
    let mut expected = vec![4u8; 32];
    expected.extend_from_slice(&[2, 0, 0, 0, b'a', b'b', 1, 0, 0, 0, b'c']);
    expected.extend_from_slice(&[0xee; 7]);
    assert_eq!(slot, expected);
}

#[test]
fn serialize_then_deserialize_gives_the_note_back() {
    let n = note([4u8; 32], "a title", "and a body that is a little longer");
    let mut slot = vec![0u8; NoteAccountState::MAX_SIZE];
    assert_eq!(n.serialize(&mut slot), Ok(()));
    assert_eq!(slot.len(), 142);
    assert_eq!(NoteAccountState::deserialize(&slot), Some(n));
}

#[test]
fn serialize_over_a_longer_note_reads_as_the_shorter_one() {
    let mut slot = vec![0u8; NoteAccountState::MAX_SIZE];
    assert_eq!(note([4u8; 32], "long title", "a long body of text").serialize(&mut slot), Ok(()));
    let short = note([4u8; 32], "t", "b");
    assert_eq!(short.serialize(&mut slot), Ok(()));
    assert_eq!(NoteAccountState::deserialize(&slot), Some(short));
}

#[test]
fn serialize_fills_a_slot_exactly() {
    let n = note([4u8; 32], "ab", "c");
    let mut slot = vec![0xeeu8; 43];
    assert_eq!(n.serialize(&mut slot), Ok(()));
    assert_eq!(Some(slot), n.to_bytes());
}

#[test]
fn serialize_into_a_slot_one_byte_short_fails_and_writes_nothing() {
    let n = note([4u8; 32], "ab", "c");
    let mut slot = vec![0xeeu8; 42];
    assert_eq!(n.serialize(&mut slot), Err(ProgramError::BorshIoError));
    assert_eq!(slot, vec![0xeeu8; 42]);
}

#[test]
fn serialize_into_an_empty_slot_fails() {
    let mut slot = Vec::new();
    assert_eq!(note([4u8; 32], "", "").serialize(&mut slot), Err(ProgramError::BorshIoError));
    assert!(slot.is_empty());
}

#[test]
fn a_note_at_both_caps_does_not_fit_a_slot_of_max_size() {
    let n = note([4u8; 32], &"t".repeat(10), &"b".repeat(100));
    assert_eq!(n.to_bytes().unwrap().len(), 150);
    let mut slot = vec![0u8; NoteAccountState::MAX_SIZE];
    assert_eq!(n.serialize(&mut slot), Err(ProgramError::BorshIoError));
    assert_eq!(slot, vec![0u8; 142]);
}

#[test]
fn a_note_of_102_text_bytes_fits_a_slot_of_max_size_exactly() {
    let n = note([4u8; 32], &"t".repeat(10), &"b".repeat(92));
    let mut slot = vec![0xffu8; NoteAccountState::MAX_SIZE];
    assert_eq!(n.serialize(&mut slot), Ok(()));
    assert_eq!(Some(slot.clone()), n.to_bytes());
    assert_eq!(NoteAccountState::deserialize(&slot), Some(n));
}

#[test]
fn deserialize_agrees_with_the_unchecked_borsh_reader_on_a_whole_slot() {
    let n = note([0x42u8; 32], "título", "corpo do texto");
    let mut slot = vec![0x99u8; NoteAccountState::MAX_SIZE];
    assert_eq!(n.serialize(&mut slot), Ok(()));
    let (authority, title, body) = solana_program::borsh1::try_from_slice_unchecked::<(
        [u8; 32],
        String,
        String,
    )>(&slot)
    .unwrap();
    assert_eq!(
        NoteAccountState::deserialize(&slot),
        Some(NoteAccountState { authority: Pubkey::new_from_array(authority), title, body })
    );
}

#[test]
fn deserialize_fails_where_the_unchecked_borsh_reader_fails() {
    let slots: [&[u8]; 4] = [
        &[0u8; 39],
        &[0xffu8; 142],
        &[1, 2, 3],
        &[],
    ];
    for slot in slots {
        let theirs = solana_program::borsh1::try_from_slice_unchecked::<(
            [u8; 32],
            String,
            String,
        )>(slot);
        assert!(theirs.is_err());
        assert_eq!(NoteAccountState::deserialize(slot), None);
    }
}
