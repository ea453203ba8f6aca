//! The note record and its layout in an account's storage slot.

use crate::error::ProgramError;
use crate::pubkey::Pubkey;
use crate::text::{
    byte_len, frameable, framed_text, lemma_framed_len, lemma_parse_framed,
    lemma_parsed_is_framed, parse_text, read_text, text_len, write_text,
};
use vstd::prelude::*;
use vstd::slice::slice_subrange;

verus! {

/// A note: who may change it, and its two texts.
#[derive(Clone, Debug, PartialEq, Eq)]
pub struct NoteAccountState {
    pub authority: Pubkey,
    pub title: String,
    pub body: String,
}

/// A note as a mathematical value.
pub ghost struct NoteView {
    pub authority: Seq<u8>,
    pub title: Seq<char>,
    pub body: Seq<char>,
}

impl View for NoteAccountState {
    type V = NoteView;

    open spec fn view(&self) -> NoteView {
        NoteView { authority: self.authority@, title: self.title@, body: self.body@ }
    }
}

impl NoteAccountState {
    /// The most bytes a title may take as UTF-8.
    pub const MAX_TITLE_SIZE: usize = 10;

    /// The most bytes a body may take as UTF-8.
    pub const MAX_BODY_SIZE: usize = 100;

    /// The size of a note's storage slot.
    pub const MAX_SIZE: usize = 32 + Self::MAX_TITLE_SIZE + Self::MAX_BODY_SIZE;
}

/// Whether both texts of `note` are within what a note may hold.
pub open spec fn within_caps(note: NoteView) -> bool {
    &&& text_len(note.title) <= NoteAccountState::MAX_TITLE_SIZE
    &&& text_len(note.body) <= NoteAccountState::MAX_BODY_SIZE
}

/// The bytes of `note` in a slot: the authority, then the framed title, then
/// the framed body, with nothing in between.
pub open spec fn record_bytes(note: NoteView) -> Seq<u8> {
    note.authority + framed_text(note.title) + framed_text(note.body)
}

/// Whether `note` can be written to a slot of `slot_len` bytes.
pub open spec fn storable(note: NoteView, slot_len: int) -> bool {
    &&& frameable(note.title)
    &&& frameable(note.body)
    &&& record_bytes(note).len() <= slot_len
}

/// The slot `slot` after `bytes` were written at its start: what lies behind
/// them stays.
pub open spec fn stored(slot: Seq<u8>, bytes: Seq<u8>) -> Seq<u8> {
    bytes + slot.skip(bytes.len() as int)
}

/// The note at the start of `data`. What follows the body is ignored.
pub open spec fn parse_record(data: Seq<u8>) -> Option<NoteView> {
    if data.len() < 32 {
        None
    } else {
        match parse_text(data.skip(32)) {
            None => None,
            Some(title) => match parse_text(data.skip(32 + 4 + text_len(title))) {
                None => None,
                Some(body) => Some(NoteView { authority: data.take(32), title, body }),
            },
        }
    }
}

/// A record takes 40 bytes and those of its two texts.
pub proof fn lemma_record_len(note: NoteView)
    ensures
        record_bytes(note).len() == note.authority.len() + 8 + text_len(note.title) + text_len(
            note.body,
        ),
{
    lemma_framed_len(note.title);
    lemma_framed_len(note.body);
}

/// Reading a slot to which a note was written gives that note back, whatever
/// the slot held before.
pub proof fn lemma_store_then_parse(note: NoteView, slot: Seq<u8>)
    requires
        note.authority.len() == 32,
        storable(note, slot.len() as int),
    ensures
        parse_record(stored(slot, record_bytes(note))) == Some(note),
{
    let bytes = record_bytes(note);
    let data = stored(slot, bytes);
    let rest = slot.skip(bytes.len() as int);
    lemma_framed_len(note.title);
    lemma_framed_len(note.body);
    assert(data.take(32) =~= note.authority);
    assert(data.skip(32) =~= framed_text(note.title) + (framed_text(note.body) + rest));
    lemma_parse_framed(note.title, framed_text(note.body) + rest);
    assert(data.skip(32 + 4 + text_len(note.title)) =~= framed_text(note.body) + rest);
    lemma_parse_framed(note.body, rest);
}

/// A slot that holds a note starts with the bytes of that note.
pub proof fn lemma_parsed_is_stored(data: Seq<u8>)
    requires
        parse_record(data) is Some,
    ensures
        parse_record(data)->0.authority.len() == 32,
        storable(parse_record(data)->0, data.len() as int),
        record_bytes(parse_record(data)->0) == data.take(
            record_bytes(parse_record(data)->0).len() as int,
        ),
{
    let note = parse_record(data)->0;
    let after_authority = data.skip(32);
    lemma_parsed_is_framed(after_authority);
    let after_title = data.skip(32 + 4 + text_len(note.title));
    lemma_parsed_is_framed(after_title);
    lemma_framed_len(note.title);
    lemma_framed_len(note.body);
    assert(framed_text(note.title) =~= data.subrange(32, 32 + 4 + text_len(note.title)));
    assert(framed_text(note.body) =~= data.subrange(
        32 + 4 + text_len(note.title),
        32 + 4 + text_len(note.title) + 4 + text_len(note.body),
    ));
}

impl NoteAccountState {
    /// Reads the note at the start of `data`.
    pub fn deserialize(data: &[u8]) -> (r: Option<NoteAccountState>)
        ensures
            r matches Some(note) ==> parse_record(data@) == Some(note@),
            r is None ==> parse_record(data@) is None,
    {
        let authority = match Pubkey::from_prefix(data) {
            Some(key) => key,
            None => { return None; },
        };
        let after_authority = slice_subrange(data, 32, data.len());
        let title = match read_text(after_authority) {
            Some(text) => text,
            None => { return None; },
        };
        proof {
            lemma_parsed_is_framed(after_authority@);
        }
        let title_end: usize = 4 + byte_len(&title);
        let after_title = slice_subrange(after_authority, title_end, after_authority.len());
        assert(after_title@ =~= data@.skip(32 + 4 + text_len(title@)));
        let body = match read_text(after_title) {
            Some(text) => text,
            None => { return None; },
        };
        Some(NoteAccountState { authority, title, body })
    }

    /// The bytes of this note, unless one of its texts is too long to be framed.
    pub fn to_bytes(&self) -> (r: Option<Vec<u8>>)
        ensures
            r matches Some(bytes) ==> frameable(self@.title) && frameable(self@.body) && bytes@
                == record_bytes(self@),
            r is None ==> !(frameable(self@.title) && frameable(self@.body)),
    {
        let title = match write_text(&self.title) {
            Some(bytes) => bytes,
            None => { return None; },
        };
        let body = match write_text(&self.body) {
            Some(bytes) => bytes,
            None => { return None; },
        };
        let authority = self.authority.to_bytes();
        let mut bytes: Vec<u8> = Vec::new();
        bytes.extend_from_slice(authority.as_slice());
        bytes.extend_from_slice(title.as_slice());
        bytes.extend_from_slice(body.as_slice());
        Some(bytes)
    }

    /// Writes this note at the start of `slot`, which keeps its length and what
    /// lies behind the note. A note that does not fit is refused and `slot` is
    /// left as it was.
    pub fn serialize(&self, slot: &mut Vec<u8>) -> (r: Result<(), ProgramError>)
        ensures
            r is Ok ==> storable(self@, old(slot)@.len() as int) && final(slot)@ == stored(
                old(slot)@,
                record_bytes(self@),
            ),
            r is Err ==> !storable(self@, old(slot)@.len() as int) && final(slot)@ == old(slot)@
                && r == Err::<(), ProgramError>(ProgramError::BorshIoError),
    {
        let bytes = match self.to_bytes() {
            Some(bytes) => bytes,
            None => { return Err(ProgramError::BorshIoError); },
        };
        if bytes.len() > slot.len() {
            return Err(ProgramError::BorshIoError);
        }
        let mut i: usize = 0;
        while i < bytes.len()
            invariant
                0 <= i <= bytes.len() <= slot.len(),
                slot.len() == old(slot).len(),
                forall|j: int| 0 <= j < i ==> slot@[j] == bytes@[j],
                forall|j: int| i <= j < slot.len() ==> slot@[j] == old(slot)@[j],
            decreases bytes.len() - i,
        {
            slot[i] = bytes[i];
            i += 1;
        }
        Ok(())
    }
}

} // verus!
