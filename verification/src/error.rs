//! The failures a note instruction can end in, and the codes callers see.

use vstd::prelude::*;
use vstd::std_specs::convert::FromSpecImpl;

verus! {

/// Why a note instruction was refused by the note rules themselves.
#[derive(Clone, Copy, Debug, PartialEq, Eq, Structural)]
pub enum NoteError {
    /// The title is longer than a note may hold.
    InvalidNoteTitleLength,
    /// The body is longer than a note may hold.
    InvalidNoteBodyLength,
    /// The caller is not the authority stored in the note.
    InvalidNoteAuthority,
}

impl NoteError {
    /// The code of this failure: 0, 1 and 2 in the order of the variants.
    pub open spec fn spec_code(self) -> u32 {
        match self {
            NoteError::InvalidNoteTitleLength => 0,
            NoteError::InvalidNoteBodyLength => 1,
            NoteError::InvalidNoteAuthority => 2,
        }
    }

    /// The code of this failure.
    #[verifier::when_used_as_spec(spec_code)]
    pub fn code(self) -> (c: u32)
        ensures
            c == self.spec_code(),
    {
        match self {
            NoteError::InvalidNoteTitleLength => 0,
            NoteError::InvalidNoteBodyLength => 1,
            NoteError::InvalidNoteAuthority => 2,
        }
    }

    /// What this failure says in words.
    pub fn message(self) -> (text: &'static str)
        ensures
            self == NoteError::InvalidNoteTitleLength ==> text@ == "Note title exceeds max length"@,
            self == NoteError::InvalidNoteBodyLength ==> text@ == "Note body exceeds max length"@,
            self == NoteError::InvalidNoteAuthority ==> text@ == "Invalid update not authority"@,
    {
        match self {
            NoteError::InvalidNoteTitleLength => "Note title exceeds max length",
            NoteError::InvalidNoteBodyLength => "Note body exceeds max length",
            NoteError::InvalidNoteAuthority => "Invalid update not authority",
        }
    }
}

/// How an instruction can fail, as its caller is told.
#[derive(Clone, Copy, Debug, PartialEq, Eq, Structural)]
pub enum ProgramError {
    /// A failure of the note rules, by its code.
    Custom(u32),
    /// The instruction bytes do not decode.
    InvalidInstructionData,
    /// Fewer account handles were passed than the instruction takes.
    NotEnoughAccountKeys,
    /// A stored record does not decode, or a record does not fit its slot.
    BorshIoError,
    /// A balance would exceed what a `u64` holds.
    ArithmeticOverflow,
    /// A service of the runtime failed, with the code it reported.
    ServiceFailed(u64),
}

impl From<NoteError> for ProgramError {
    fn from(value: NoteError) -> (e: ProgramError) {
        ProgramError::Custom(value.code())
    }
}

impl FromSpecImpl<NoteError> for ProgramError {
    open spec fn obeys_from_spec() -> bool {
        true
    }

    open spec fn from_spec(value: NoteError) -> ProgramError {
        surfaced(value)
    }
}

/// The failure a caller sees for `e`: its code, as a custom failure.
pub open spec fn surfaced(e: NoteError) -> ProgramError {
    ProgramError::Custom(e.spec_code())
}

/// Different failures of the note rules have different codes, and none of them
/// is taken for an instruction that does not decode.
pub proof fn lemma_codes_distinct(a: NoteError, b: NoteError)
    ensures
        a != b ==> a.spec_code() != b.spec_code(),
        a != b ==> surfaced(a) != surfaced(b),
        surfaced(a) != ProgramError::InvalidInstructionData,
{
}

} // verus!
