//! The entry point of the note program, and the two transitions that are
//! done in one step: update and delete.

use crate::account::{
    applied, refused, same_shape, views, with_data, Account, AccountView, Transition,
};
use crate::create::{create_note, create_request, PendingCreate, PendingView};
use crate::error::{surfaced, NoteError, ProgramError};
use crate::instruction::{parse_instruction, InstructionView, NoteInstruction};
use crate::pubkey::Pubkey;
use crate::state::{
    lemma_parsed_is_stored, lemma_record_len, lemma_store_then_parse, parse_record, record_bytes,
    storable, stored, within_caps, NoteAccountState, NoteView,
};
use crate::text::{byte_len, parse_text, text_len};
use vstd::prelude::*;
use vstd::utf8::encode_utf8;

verus! {

/// What an update does. The handles are the claimed authority and the note's
/// account, in this order. The texts are checked first, the title before the
/// body; then the stored note is read and its authority compared with the
/// claimed one; then the note is written back with the new texts.
pub open spec fn update_effect(
    accounts: Seq<AccountView>,
    title: Seq<char>,
    body: Seq<char>,
) -> Transition {
    if accounts.len() < 2 {
        refused(accounts, ProgramError::NotEnoughAccountKeys)
    } else if text_len(title) > NoteAccountState::MAX_TITLE_SIZE {
        refused(accounts, surfaced(NoteError::InvalidNoteTitleLength))
    } else if text_len(body) > NoteAccountState::MAX_BODY_SIZE {
        refused(accounts, surfaced(NoteError::InvalidNoteBodyLength))
    } else {
        match parse_record(accounts[1].data) {
            None => refused(accounts, ProgramError::BorshIoError),
            Some(held) => {
                let note = NoteView { authority: held.authority, title, body };
                if accounts[0].key != held.authority {
                    refused(accounts, surfaced(NoteError::InvalidNoteAuthority))
                } else if !storable(note, accounts[1].data.len() as int) {
                    refused(accounts, ProgramError::BorshIoError)
                } else {
                    applied(
                        accounts.update(
                            1,
                            with_data(accounts[1], stored(accounts[1].data, record_bytes(note))),
                        ),
                    )
                }
            },
        }
    }
}

/// Replaces the texts of the note in the second account, for the authority in
/// the first.
pub fn update_node(
    _program_id: &Pubkey,
    accounts: &mut Vec<Account>,
    title: String,
    body: String,
) -> (r: Result<(), ProgramError>)
    ensures
        update_effect(views(old(accounts)@), title@, body@) == (Transition {
            result: r,
            accounts: views(final(accounts)@),
        }),
{
    if accounts.len() < 2 {
        return Err(ProgramError::NotEnoughAccountKeys);
    }
    if byte_len(&title) > NoteAccountState::MAX_TITLE_SIZE {
        return Err(ProgramError::from(NoteError::InvalidNoteTitleLength));
    }
    if byte_len(&body) > NoteAccountState::MAX_BODY_SIZE {
        return Err(ProgramError::from(NoteError::InvalidNoteBodyLength));
    }
    let held = match NoteAccountState::deserialize(accounts[1].data.as_slice()) {
        Some(note) => note,
        None => { return Err(ProgramError::BorshIoError); },
    };
    if accounts[0].key != held.authority {
        return Err(ProgramError::from(NoteError::InvalidNoteAuthority));
    }
    let note = NoteAccountState { authority: held.authority, title, body };
    match note.serialize(&mut accounts[1].data) {
        Ok(()) => {
            assert(views(accounts@) =~= views(old(accounts)@).update(
                1,
                with_data(
                    views(old(accounts)@)[1],
                    stored(views(old(accounts)@)[1].data, record_bytes(note@)),
                ),
            ));
            Ok(())
        },
        Err(e) => {
            assert(views(accounts@) =~= views(old(accounts)@));
            Err(e)
        },
    }
}

/// A slot of `len` bytes that are all zero.
pub open spec fn zeroed(len: nat) -> Seq<u8> {
    Seq::new(len, |i: int| 0u8)
}

/// What a delete does. The handles are the claimed authority and the note's
/// account, in this order. The stored note is read and its authority compared
/// with the claimed one; then the whole balance of the note's account goes to
/// the authority, and every byte of the slot becomes zero.
pub open spec fn delete_effect(accounts: Seq<AccountView>) -> Transition {
    if accounts.len() < 2 {
        refused(accounts, ProgramError::NotEnoughAccountKeys)
    } else {
        match parse_record(accounts[1].data) {
            None => refused(accounts, ProgramError::BorshIoError),
            Some(held) => {
                if accounts[0].key != held.authority {
                    refused(accounts, surfaced(NoteError::InvalidNoteAuthority))
                } else if accounts[0].lamports + accounts[1].lamports > u64::MAX {
                    refused(accounts, ProgramError::ArithmeticOverflow)
                } else {
                    applied(
                        accounts.update(
                            0,
                            AccountView {
                                key: accounts[0].key,
                                lamports: (accounts[0].lamports + accounts[1].lamports) as u64,
                                data: accounts[0].data,
                            },
                        ).update(
                            1,
                            AccountView {
                                key: accounts[1].key,
                                lamports: 0,
                                data: zeroed(accounts[1].data.len()),
                            },
                        ),
                    )
                }
            },
        }
    }
}

/// Makes every byte of `slot` zero.
fn zero_fill(slot: &mut Vec<u8>)
    ensures
        final(slot)@ == zeroed(old(slot)@.len()),
{
    let mut i: usize = 0;
    while i < slot.len()
        invariant
            0 <= i <= slot.len(),
            slot.len() == old(slot).len(),
            forall|j: int| 0 <= j < i ==> slot@[j] == 0u8,
        decreases slot.len() - i,
    {
        slot[i] = 0;
        i += 1;
    }
}

/// Empties the note in the second account and hands its balance to the
/// authority in the first.
pub fn delete_note(_program_id: &Pubkey, accounts: &mut Vec<Account>) -> (r: Result<
    (),
    ProgramError,
>)
    ensures
        delete_effect(views(old(accounts)@)) == (Transition {
            result: r,
            accounts: views(final(accounts)@),
        }),
{
    if accounts.len() < 2 {
        return Err(ProgramError::NotEnoughAccountKeys);
    }
    let held = match NoteAccountState::deserialize(accounts[1].data.as_slice()) {
        Some(note) => note,
        None => { return Err(ProgramError::BorshIoError); },
    };
    if accounts[0].key != held.authority {
        return Err(ProgramError::from(NoteError::InvalidNoteAuthority));
    }
    let total = match accounts[0].lamports.checked_add(accounts[1].lamports) {
        Some(sum) => sum,
        None => { return Err(ProgramError::ArithmeticOverflow); },
    };
    accounts[0].lamports = total;
    accounts[1].lamports = 0;
    zero_fill(&mut accounts[1].data);
    assert(views(accounts@) =~= delete_effect(views(old(accounts)@)).accounts);
    Ok(())
}

/// How far an instruction has come.
#[derive(Debug)]
pub enum Progress {
    /// The instruction has been carried out.
    Done,
    /// A create has passed its checks: the rent service is to be asked next.
    AwaitRent(PendingCreate),
}

impl View for Progress {
    type V = Option<PendingView>;

    open spec fn view(&self) -> Option<PendingView> {
        match self {
            Progress::Done => None,
            Progress::AwaitRent(pending) => Some(pending@),
        }
    }
}

/// How the first step of an instruction ends: with the accounts it leaves,
/// and either a failure or what is left to do.
pub ghost struct Step {
    pub result: Result<Option<PendingView>, ProgramError>,
    pub accounts: Seq<AccountView>,
}

/// The step that a transition amounts to when nothing is left to do.
pub open spec fn finished(transition: Transition) -> Step {
    Step {
        result: match transition.result {
            Ok(()) => Ok(None),
            Err(e) => Err(e),
        },
        accounts: transition.accounts,
    }
}

/// What an instruction does: it is decoded, and the command carried out. An
/// update and a delete are done in this one step. A create is checked and
/// left pending.
pub open spec fn process_effect(
    program_id: Seq<u8>,
    accounts: Seq<AccountView>,
    input: Seq<u8>,
) -> Step {
    match parse_instruction(input) {
        None => Step { result: Err(ProgramError::InvalidInstructionData), accounts },
        Some(InstructionView::CreateNote { title, body, authority }) => Step {
            result: match create_request(program_id, accounts, title, body, authority) {
                Ok(pending) => Ok(Some(pending)),
                Err(e) => Err(e),
            },
            accounts,
        },
        Some(InstructionView::UpdateNote { title, body }) => finished(
            update_effect(accounts, title, body),
        ),
        Some(InstructionView::DeleteNote) => finished(delete_effect(accounts)),
    }
}

/// Decodes `instruction_data` and carries the command out on `accounts`.
pub fn process_instruction(
    program_id: &Pubkey,
    accounts: &mut Vec<Account>,
    instruction_data: &[u8],
) -> (r: Result<Progress, ProgramError>)
    ensures
        process_effect(program_id@, views(old(accounts)@), instruction_data@) == (Step {
            result: match r {
                Ok(progress) => Ok(progress@),
                Err(e) => Err(e),
            },
            accounts: views(final(accounts)@),
        }),
{
    let instruction = match NoteInstruction::unpack(instruction_data) {
        Ok(instruction) => instruction,
        Err(e) => { return Err(e); },
    };
    match instruction {
        NoteInstruction::CreateNote { title, body, authority } => {
            match create_note(program_id, accounts, title, body, authority) {
                Ok(pending) => Ok(Progress::AwaitRent(pending)),
                Err(e) => Err(e),
            }
        },
        NoteInstruction::UpdateNote { title, body } => {
            match update_node(program_id, accounts, title, body) {
                Ok(()) => Ok(Progress::Done),
                Err(e) => Err(e),
            }
        },
        NoteInstruction::DeleteNote => {
            match delete_note(program_id, accounts) {
                Ok(()) => Ok(Progress::Done),
                Err(e) => Err(e),
            }
        },
    }
}

/// An update by anyone but the stored authority is refused as such, and
/// every account is left as it was.
pub proof fn lemma_update_by_stranger(
    accounts: Seq<AccountView>,
    title: Seq<char>,
    body: Seq<char>,
)
    requires
        accounts.len() >= 2,
        text_len(title) <= NoteAccountState::MAX_TITLE_SIZE,
        text_len(body) <= NoteAccountState::MAX_BODY_SIZE,
        parse_record(accounts[1].data) is Some,
        accounts[0].key != parse_record(accounts[1].data)->0.authority,
    ensures
        update_effect(accounts, title, body) == refused(
            accounts,
            surfaced(NoteError::InvalidNoteAuthority),
        ),
{
}

/// An update by the stored authority, with texts within the caps that fit
/// the slot, succeeds. A read of the slot then gives the new texts under the
/// old authority; the slot keeps its length and what lay behind the note; the
/// identity and the balance of the note's account and all other accounts stay.
pub proof fn lemma_update_by_authority(
    accounts: Seq<AccountView>,
    title: Seq<char>,
    body: Seq<char>,
)
    requires
        accounts.len() >= 2,
        text_len(title) <= NoteAccountState::MAX_TITLE_SIZE,
        text_len(body) <= NoteAccountState::MAX_BODY_SIZE,
        parse_record(accounts[1].data) is Some,
        accounts[0].key == parse_record(accounts[1].data)->0.authority,
        40 + text_len(title) + text_len(body) <= accounts[1].data.len(),
    ensures
        update_effect(accounts, title, body).result is Ok,
        parse_record(update_effect(accounts, title, body).accounts[1].data) == Some(
            NoteView { authority: parse_record(accounts[1].data)->0.authority, title, body },
        ),
        update_effect(accounts, title, body).accounts.len() == accounts.len(),
        forall|i: int|
            0 <= i < accounts.len() && i != 1 ==> update_effect(accounts, title, body).accounts[i]
                == accounts[i],
        update_effect(accounts, title, body).accounts[1].key == accounts[1].key,
        update_effect(accounts, title, body).accounts[1].lamports == accounts[1].lamports,
        update_effect(accounts, title, body).accounts[1].data.len() == accounts[1].data.len(),
        forall|i: int|
            40 + text_len(title) + text_len(body) <= i < accounts[1].data.len()
                ==> update_effect(accounts, title, body).accounts[1].data[i]
                == accounts[1].data[i],
{
    let held = parse_record(accounts[1].data)->0;
    let note = NoteView { authority: held.authority, title, body };
    lemma_parsed_is_stored(accounts[1].data);
    lemma_record_len(note);
    lemma_store_then_parse(note, accounts[1].data);
}

/// A delete by the stored authority, where the two balances together fit a
/// `u64`, succeeds: every byte of the slot is zero afterwards, the slot's
/// whole balance has gone to the authority and the slot's balance is zero.
/// The slot keeps its length, and all other accounts stay.
pub proof fn lemma_delete_by_authority(accounts: Seq<AccountView>)
    requires
        accounts.len() >= 2,
        parse_record(accounts[1].data) is Some,
        accounts[0].key == parse_record(accounts[1].data)->0.authority,
        accounts[0].lamports + accounts[1].lamports <= u64::MAX,
    ensures
        delete_effect(accounts).result is Ok,
        delete_effect(accounts).accounts.len() == accounts.len(),
        delete_effect(accounts).accounts[1].data.len() == accounts[1].data.len(),
        forall|i: int|
            0 <= i < accounts[1].data.len() ==> delete_effect(accounts).accounts[1].data[i] == 0,
        delete_effect(accounts).accounts[1].lamports == 0,
        delete_effect(accounts).accounts[1].key == accounts[1].key,
        delete_effect(accounts).accounts[0].lamports == accounts[0].lamports
            + accounts[1].lamports,
        delete_effect(accounts).accounts[0].key == accounts[0].key,
        delete_effect(accounts).accounts[0].data == accounts[0].data,
        forall|i: int|
            2 <= i < accounts.len() ==> delete_effect(accounts).accounts[i] == accounts[i],
{
}

/// A delete by anyone but the stored authority is refused as such, and
/// every balance and every slot is left as it was.
pub proof fn lemma_delete_by_stranger(accounts: Seq<AccountView>)
    requires
        accounts.len() >= 2,
        parse_record(accounts[1].data) is Some,
        accounts[0].key != parse_record(accounts[1].data)->0.authority,
    ensures
        delete_effect(accounts) == refused(accounts, surfaced(NoteError::InvalidNoteAuthority)),
{
}

/// A slot of at least 40 zero bytes reads as the empty note: an authority of
/// 32 zero bytes and two empty texts.
pub proof fn lemma_zeroed_is_empty_note(len: nat)
    requires
        len >= 40,
    ensures
        parse_record(zeroed(len)) == Some(
            NoteView {
                authority: zeroed(32),
                title: Seq::<char>::empty(),
                body: Seq::<char>::empty(),
            },
        ),
{
    let data = zeroed(len);
    let none = Seq::<char>::empty();
    assert(data.take(32) =~= zeroed(32));
    assert(data.skip(32).subrange(4, 4) =~= encode_utf8(none));
    assert(parse_text(data.skip(32)) == Some(none));
    assert(data.skip(36).subrange(4, 4) =~= encode_utf8(none));
    assert(parse_text(data.skip(36)) == Some(none));
}

/// A delete that follows a delete is refused: the emptied slot reads as a
/// note whose authority is 32 zero bytes, which no caller with another
/// identity is. Nothing changes.
pub proof fn lemma_delete_twice(accounts: Seq<AccountView>)
    requires
        delete_effect(accounts).result is Ok,
        accounts[0].key != zeroed(32),
    ensures
        delete_effect(delete_effect(accounts).accounts) == refused(
            delete_effect(accounts).accounts,
            surfaced(NoteError::InvalidNoteAuthority),
        ),
{
    lemma_parsed_is_stored(accounts[1].data);
    lemma_record_len(parse_record(accounts[1].data)->0);
    lemma_zeroed_is_empty_note(accounts[1].data.len());
}

/// Neither an update nor a delete resizes a slot or gives an account
/// another identity, whether it succeeds or fails.
pub proof fn lemma_shape_kept(accounts: Seq<AccountView>, title: Seq<char>, body: Seq<char>)
    ensures
        same_shape(accounts, update_effect(accounts, title, body).accounts),
        same_shape(accounts, delete_effect(accounts).accounts),
{
}

/// Only the stored authority updates a note: where an update succeeds, the
/// first account is the authority of the note that the slot held, the new
/// texts are within the caps, and the slot then holds them under that same
/// authority.
pub proof fn lemma_update_only_by_authority(
    accounts: Seq<AccountView>,
    title: Seq<char>,
    body: Seq<char>,
)
    requires
        update_effect(accounts, title, body).result is Ok,
    ensures
        parse_record(accounts[1].data) is Some,
        accounts[0].key == parse_record(accounts[1].data)->0.authority,
        within_caps(NoteView { authority: accounts[0].key, title, body }),
        parse_record(update_effect(accounts, title, body).accounts[1].data) == Some(
            NoteView { authority: accounts[0].key, title, body },
        ),
{
    let held = parse_record(accounts[1].data)->0;
    let note = NoteView { authority: held.authority, title, body };
    lemma_parsed_is_stored(accounts[1].data);
    lemma_store_then_parse(note, accounts[1].data);
}

/// Only the stored authority deletes a note: where a delete succeeds, the
/// first account is the authority of the note that the slot held.
pub proof fn lemma_delete_only_by_authority(accounts: Seq<AccountView>)
    requires
        delete_effect(accounts).result is Ok,
    ensures
        parse_record(accounts[1].data) is Some,
        accounts[0].key == parse_record(accounts[1].data)->0.authority,
{
}

} // verus!
