//! The three commands of the note program and their wire format: one byte
//! that selects the command, then its payload.

use crate::error::ProgramError;
use crate::pubkey::Pubkey;
use crate::text::{
    byte_len, frameable, framed_text, lemma_framed_len, lemma_parse_framed,
    lemma_parsed_is_framed, parse_text, read_text, text_len,
};
use vstd::prelude::*;
use vstd::slice::slice_subrange;

verus! {

/// A decoded command.
#[derive(Clone, Debug, PartialEq, Eq)]
pub enum NoteInstruction {
    /// Make a note with these texts, to be changed by `authority` alone.
    CreateNote { title: String, body: String, authority: Pubkey },
    /// Replace the texts of a note.
    UpdateNote { title: String, body: String },
    /// Empty a note's slot and hand its balance to the authority.
    DeleteNote,
}

/// A command as a mathematical value.
pub ghost enum InstructionView {
    CreateNote { title: Seq<char>, body: Seq<char>, authority: Seq<u8> },
    UpdateNote { title: Seq<char>, body: Seq<char> },
    DeleteNote,
}

impl View for NoteInstruction {
    type V = InstructionView;

    open spec fn view(&self) -> InstructionView {
        match self {
            NoteInstruction::CreateNote { title, body, authority } => InstructionView::CreateNote {
                title: title@,
                body: body@,
                authority: authority@,
            },
            NoteInstruction::UpdateNote { title, body } => InstructionView::UpdateNote {
                title: title@,
                body: body@,
            },
            NoteInstruction::DeleteNote => InstructionView::DeleteNote,
        }
    }
}

/// The byte that selects a create.
pub const CREATE_TAG: u8 = 0;

/// The byte that selects an update.
pub const UPDATE_TAG: u8 = 1;

/// The byte that selects a delete.
pub const DELETE_TAG: u8 = 2;

/// The two texts at the head of `payload` and what follows them.
pub open spec fn parse_texts(payload: Seq<u8>) -> Option<(Seq<char>, Seq<char>, Seq<u8>)> {
    match parse_text(payload) {
        None => None,
        Some(title) => match parse_text(payload.skip(4 + text_len(title))) {
            None => None,
            Some(body) => Some(
                (title, body, payload.skip(4 + text_len(title) + 4 + text_len(body))),
            ),
        },
    }
}

/// The command that `input` encodes, if it encodes one.
///
/// A create carries title, body and 32 bytes of authority; an update carries
/// title and body; neither may be followed by anything. A delete carries
/// nothing, and what follows its tag is ignored.
pub open spec fn parse_instruction(input: Seq<u8>) -> Option<InstructionView> {
    if input.len() == 0 {
        None
    } else if input[0] == CREATE_TAG {
        match parse_texts(input.skip(1)) {
            Some((title, body, rest)) => if rest.len() == 32 {
                Some(InstructionView::CreateNote { title, body, authority: rest })
            } else {
                None
            },
            None => None,
        }
    } else if input[0] == UPDATE_TAG {
        match parse_texts(input.skip(1)) {
            Some((title, body, rest)) => if rest.len() == 0 {
                Some(InstructionView::UpdateNote { title, body })
            } else {
                None
            },
            None => None,
        }
    } else if input[0] == DELETE_TAG {
        Some(InstructionView::DeleteNote)
    } else {
        None
    }
}

/// The bytes that encode `instruction`.
pub open spec fn instruction_bytes(instruction: InstructionView) -> Seq<u8> {
    match instruction {
        InstructionView::CreateNote { title, body, authority } => seq![CREATE_TAG] + framed_text(
            title,
        ) + framed_text(body) + authority,
        InstructionView::UpdateNote { title, body } => seq![UPDATE_TAG] + framed_text(title)
            + framed_text(body),
        InstructionView::DeleteNote => seq![DELETE_TAG],
    }
}

/// Whether `instruction` can be encoded: its texts can be framed and its
/// authority has 32 bytes.
pub open spec fn encodable(instruction: InstructionView) -> bool {
    match instruction {
        InstructionView::CreateNote { title, body, authority } => frameable(title) && frameable(
            body,
        ) && authority.len() == 32,
        InstructionView::UpdateNote { title, body } => frameable(title) && frameable(body),
        InstructionView::DeleteNote => true,
    }
}

/// Two framed texts and whatever follows them parse back to the texts and
/// what followed.
pub proof fn lemma_parse_framed_texts(title: Seq<char>, body: Seq<char>, rest: Seq<u8>)
    requires
        frameable(title),
        frameable(body),
    ensures
        parse_texts(framed_text(title) + framed_text(body) + rest) == Some((title, body, rest)),
{
    let payload = framed_text(title) + framed_text(body) + rest;
    lemma_framed_len(title);
    lemma_framed_len(body);
    assert(payload =~= framed_text(title) + (framed_text(body) + rest));
    lemma_parse_framed(title, framed_text(body) + rest);
    assert(payload.skip(4 + text_len(title)) =~= framed_text(body) + rest);
    lemma_parse_framed(body, rest);
}

/// Decoding the bytes of a command gives the command back.
pub proof fn lemma_parse_instruction_bytes(instruction: InstructionView)
    requires
        encodable(instruction),
    ensures
        parse_instruction(instruction_bytes(instruction)) == Some(instruction),
{
    let input = instruction_bytes(instruction);
    match instruction {
        InstructionView::CreateNote { title, body, authority } => {
            assert(input.skip(1) =~= framed_text(title) + framed_text(body) + authority);
            lemma_parse_framed_texts(title, body, authority);
        },
        InstructionView::UpdateNote { title, body } => {
            assert(input.skip(1) =~= framed_text(title) + framed_text(body) + Seq::<u8>::empty());
            lemma_parse_framed_texts(title, body, Seq::<u8>::empty());
        },
        InstructionView::DeleteNote => {},
    }
}

/// Reads the two texts at the head of `payload` and hands back what follows.
fn read_texts(payload: &[u8]) -> (r: Option<(String, String, &[u8])>)
    ensures
        r matches Some((title, body, rest)) ==> parse_texts(payload@) == Some(
            (title@, body@, rest@),
        ),
        r is None ==> parse_texts(payload@) is None,
{
    let payload_len = payload.len();
    let title = match read_text(payload) {
        Some(text) => text,
        None => { return None; },
    };
    proof {
        lemma_parsed_is_framed(payload@);
    }
    let title_end: usize = 4 + byte_len(&title);
    let after_title = slice_subrange(payload, title_end, payload_len);
    let body = match read_text(after_title) {
        Some(text) => text,
        None => { return None; },
    };
    proof {
        lemma_parsed_is_framed(after_title@);
    }
    let body_end: usize = 4 + byte_len(&body);
    let rest = slice_subrange(after_title, body_end, after_title.len());
    Some((title, body, rest))
}

impl NoteInstruction {
    /// Decodes `input`. Bytes that encode no command are refused as invalid
    /// instruction data.
    pub fn unpack(input: &[u8]) -> (r: Result<NoteInstruction, ProgramError>)
        ensures
            r matches Ok(instruction) ==> parse_instruction(input@) == Some(instruction@),
            r matches Err(e) ==> e == ProgramError::InvalidInstructionData && parse_instruction(
                input@,
            ) is None,
    {
        if input.len() == 0 {
            return Err(ProgramError::InvalidInstructionData);
        }
        let variant = input[0];
        let payload = slice_subrange(input, 1, input.len());
        if variant == CREATE_TAG {
            match read_texts(payload) {
                Some((title, body, rest)) => {
                    if rest.len() != 32 {
                        return Err(ProgramError::InvalidInstructionData);
                    }
                    match Pubkey::from_prefix(rest) {
                        Some(authority) => {
                            assert(rest@.take(32) =~= rest@);
                            Ok(NoteInstruction::CreateNote { title, body, authority })
                        },
                        None => Err(ProgramError::InvalidInstructionData),
                    }
                },
                None => Err(ProgramError::InvalidInstructionData),
            }
        } else if variant == UPDATE_TAG {
            match read_texts(payload) {
                Some((title, body, rest)) => {
                    if rest.len() != 0 {
                        return Err(ProgramError::InvalidInstructionData);
                    }
                    Ok(NoteInstruction::UpdateNote { title, body })
                },
                None => Err(ProgramError::InvalidInstructionData),
            }
        } else if variant == DELETE_TAG {
            Ok(NoteInstruction::DeleteNote)
        } else {
            Err(ProgramError::InvalidInstructionData)
        }
    }
}

} // verus!
