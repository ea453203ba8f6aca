//! Creating a note. The slot of a new note is allocated by a service of the
//! runtime, so a create goes in three steps: the instruction is checked, then
//! the rent-exempt balance for the slot is learned and the allocation asked
//! for, then the note is written into the slot that was granted. Between the
//! steps the caller does what the pending create asks for and reports how it
//! went.

use crate::account::{
    applied, refused, same_shape, views, with_data, Account, AccountView, Transition,
};
use crate::error::{surfaced, NoteError, ProgramError};
use crate::pubkey::Pubkey;
use crate::state::{
    lemma_record_len, lemma_store_then_parse, parse_record, record_bytes, storable, stored,
    within_caps, NoteAccountState, NoteView,
};
use crate::text::{byte_len, text_len};
use vstd::prelude::*;

verus! {

/// What the allocation service is asked for: a new slot of `space` bytes at
/// `target`, owned by `owner`, with `lamports` as its balance, taken from
/// `payer`.
#[derive(Clone, Copy, Debug, PartialEq, Eq)]
pub struct AllocationRequest {
    pub payer: Pubkey,
    pub target: Pubkey,
    pub lamports: u64,
    pub space: u64,
    pub owner: Pubkey,
}

/// An allocation request as a mathematical value.
pub ghost struct AllocationRequestView {
    pub payer: Seq<u8>,
    pub target: Seq<u8>,
    pub lamports: u64,
    pub space: u64,
    pub owner: Seq<u8>,
}

impl View for AllocationRequest {
    type V = AllocationRequestView;

    open spec fn view(&self) -> AllocationRequestView {
        AllocationRequestView {
            payer: self.payer@,
            target: self.target@,
            lamports: self.lamports,
            space: self.space,
            owner: self.owner@,
        }
    }
}

/// A create that has passed its checks and waits to learn the balance that
/// exempts its slot from rent.
#[derive(Debug)]
pub struct PendingCreate {
    payer: Pubkey,
    target: Pubkey,
    owner: Pubkey,
    record: NoteAccountState,
}

/// A pending create as a mathematical value.
pub ghost struct PendingView {
    pub payer: Seq<u8>,
    pub target: Seq<u8>,
    pub owner: Seq<u8>,
    pub record: NoteView,
}

impl View for PendingCreate {
    type V = PendingView;

    closed spec fn view(&self) -> PendingView {
        PendingView {
            payer: self.payer@,
            target: self.target@,
            owner: self.owner@,
            record: self.record@,
        }
    }
}

/// A create that knows what to ask of the allocation service and waits for
/// its slot.
#[derive(Debug)]
pub struct FundedCreate {
    request: AllocationRequest,
    record: NoteAccountState,
}

/// A funded create as a mathematical value.
pub ghost struct FundedView {
    pub request: AllocationRequestView,
    pub record: NoteView,
}

impl View for FundedCreate {
    type V = FundedView;

    closed spec fn view(&self) -> FundedView {
        FundedView { request: self.request@, record: self.record@ }
    }
}

/// What the first step of a create gives. The handles are the payer, the
/// note's account and the allocation service, in this order. The texts are
/// checked, the title before the body. Nothing is written.
pub open spec fn create_request(
    program_id: Seq<u8>,
    accounts: Seq<AccountView>,
    title: Seq<char>,
    body: Seq<char>,
    authority: Seq<u8>,
) -> Result<PendingView, ProgramError> {
    if accounts.len() < 3 {
        Err(ProgramError::NotEnoughAccountKeys)
    } else if text_len(title) > NoteAccountState::MAX_TITLE_SIZE {
        Err(surfaced(NoteError::InvalidNoteTitleLength))
    } else if text_len(body) > NoteAccountState::MAX_BODY_SIZE {
        Err(surfaced(NoteError::InvalidNoteBodyLength))
    } else {
        Ok(
            PendingView {
                payer: accounts[0].key,
                target: accounts[1].key,
                owner: program_id,
                record: NoteView { authority, title, body },
            },
        )
    }
}

/// What the second step of a create gives, once the rent service has
/// answered. Where it failed, the create fails with its code. Where it named
/// a balance, a slot of the size notes have is asked for with that balance,
/// paid by the first handle, at the second, owned by the program.
pub open spec fn create_funding(pending: PendingView, rent: Result<u64, u64>) -> Result<
    FundedView,
    ProgramError,
> {
    match rent {
        Err(code) => Err(ProgramError::ServiceFailed(code)),
        Ok(lamports) => Ok(
            FundedView {
                request: AllocationRequestView {
                    payer: pending.payer,
                    target: pending.target,
                    lamports,
                    space: NoteAccountState::MAX_SIZE as u64,
                    owner: pending.owner,
                },
                record: pending.record,
            },
        ),
    }
}

/// What the last step of a create does, once the allocation service has
/// answered. Where it refused, the create fails with its code. Where it
/// granted the slot, the note is written at the start of the second
/// account's slot.
pub open spec fn create_completion(
    funded: FundedView,
    accounts: Seq<AccountView>,
    allocation: Result<(), u64>,
) -> Transition {
    match allocation {
        Err(code) => refused(accounts, ProgramError::ServiceFailed(code)),
        Ok(()) => {
            if accounts.len() < 3 {
                refused(accounts, ProgramError::NotEnoughAccountKeys)
            } else if !storable(funded.record, accounts[1].data.len() as int) {
                refused(accounts, ProgramError::BorshIoError)
            } else {
                applied(
                    accounts.update(
                        1,
                        with_data(
                            accounts[1],
                            stored(accounts[1].data, record_bytes(funded.record)),
                        ),
                    ),
                )
            }
        },
    }
}

/// Checks a create. Where it passes, the rent service is to be asked next.
pub fn create_note(
    program_id: &Pubkey,
    accounts: &Vec<Account>,
    title: String,
    body: String,
    authority: Pubkey,
) -> (r: Result<PendingCreate, ProgramError>)
    ensures
        r matches Ok(pending) ==> create_request(
            program_id@,
            views(accounts@),
            title@,
            body@,
            authority@,
        ) == Ok::<PendingView, ProgramError>(pending@),
        r matches Err(e) ==> create_request(
            program_id@,
            views(accounts@),
            title@,
            body@,
            authority@,
        ) == Err::<PendingView, ProgramError>(e),
{
    if accounts.len() < 3 {
        return Err(ProgramError::NotEnoughAccountKeys);
    }
    if byte_len(&title) > NoteAccountState::MAX_TITLE_SIZE {
        return Err(ProgramError::from(NoteError::InvalidNoteTitleLength));
    }
    if byte_len(&body) > NoteAccountState::MAX_BODY_SIZE {
        return Err(ProgramError::from(NoteError::InvalidNoteBodyLength));
    }
    Ok(
        PendingCreate {
            payer: accounts[0].key,
            target: accounts[1].key,
            owner: *program_id,
            record: NoteAccountState { authority, title, body },
        },
    )
}

impl PendingCreate {
    /// A pending create holds a note within the caps.
    #[verifier::type_invariant]
    spec fn well_formed(self) -> bool {
        within_caps(self.record@)
    }

    /// The size of the slot whose rent-exempt balance is to be learned.
    pub fn space(&self) -> (space: usize)
        ensures
            space == NoteAccountState::MAX_SIZE,
    {
        NoteAccountState::MAX_SIZE
    }

    /// Goes on with the answer of the rent service: the balance that exempts
    /// a slot of `space()` bytes from rent, or the code of its failure.
    pub fn fund(self, rent: Result<u64, u64>) -> (r: Result<FundedCreate, ProgramError>)
        ensures
            within_caps(self@.record),
            r matches Ok(funded) ==> create_funding(self@, rent) == Ok::<FundedView, ProgramError>(
                funded@,
            ),
            r matches Err(e) ==> create_funding(self@, rent) == Err::<FundedView, ProgramError>(e),
    {
        proof {
            use_type_invariant(&self);
        }
        match rent {
            Err(code) => Err(ProgramError::ServiceFailed(code)),
            Ok(lamports) => Ok(
                FundedCreate {
                    request: AllocationRequest {
                        payer: self.payer,
                        target: self.target,
                        lamports,
                        space: NoteAccountState::MAX_SIZE as u64,
                        owner: self.owner,
                    },
                    record: self.record,
                },
            ),
        }
    }
}

impl FundedCreate {
    /// A funded create holds a note within the caps and asks for a slot of
    /// the one size notes have.
    #[verifier::type_invariant]
    spec fn well_formed(self) -> bool {
        &&& within_caps(self.record@)
        &&& self.request.space == NoteAccountState::MAX_SIZE
    }

    /// What the allocation service is to be asked for.
    pub fn request(&self) -> (request: AllocationRequest)
        ensures
            request@ == self@.request,
    {
        self.request
    }

    /// The note that will be written.
    pub fn record(&self) -> (record: &NoteAccountState)
        ensures
            record@ == self@.record,
    {
        &self.record
    }

    /// Ends the create with the answer of the allocation service: `Ok` where
    /// the slot was allocated, else the code of the refusal. `accounts` are
    /// the handles of the instruction as they are after the allocation.
    pub fn complete(self, accounts: &mut Vec<Account>, allocation: Result<(), u64>) -> (r: Result<
        (),
        ProgramError,
    >)
        ensures
            within_caps(self@.record),
            self@.request.space == NoteAccountState::MAX_SIZE,
            create_completion(self@, views(old(accounts)@), allocation) == (Transition {
                result: r,
                accounts: views(final(accounts)@),
            }),
    {
        proof {
            use_type_invariant(&self);
        }
        match allocation {
            Err(code) => { return Err(ProgramError::ServiceFailed(code)); },
            Ok(()) => {},
        }
        if accounts.len() < 3 {
            return Err(ProgramError::NotEnoughAccountKeys);
        }
        match self.record.serialize(&mut accounts[1].data) {
            Ok(()) => {
                assert(views(accounts@) =~= create_completion(
                    self@,
                    views(old(accounts)@),
                    allocation,
                ).accounts);
                Ok(())
            },
            Err(e) => {
                assert(views(accounts@) =~= views(old(accounts)@));
                Err(e)
            },
        }
    }
}

/// A create whose texts are within the caps passes its checks. Once the rent
/// service has named a balance, it asks for a slot of 142 bytes with that
/// balance, paid by the first handle, at the second, owned by the program.
/// Once a slot is granted that the note fits in, the create succeeds, and a
/// read of the slot gives back exactly the title, the body and the authority
/// that were submitted.
pub proof fn lemma_create_then_read(
    program_id: Seq<u8>,
    accounts: Seq<AccountView>,
    lamports: u64,
    granted: Seq<AccountView>,
    title: Seq<char>,
    body: Seq<char>,
    authority: Seq<u8>,
)
    requires
        authority.len() == 32,
        accounts.len() >= 3,
        granted.len() >= 3,
        text_len(title) <= NoteAccountState::MAX_TITLE_SIZE,
        text_len(body) <= NoteAccountState::MAX_BODY_SIZE,
        40 + text_len(title) + text_len(body) <= granted[1].data.len(),
    ensures
        create_request(program_id, accounts, title, body, authority) is Ok,
        create_funding(
            create_request(program_id, accounts, title, body, authority)->Ok_0,
            Ok(lamports),
        ) is Ok,
        create_funding(
            create_request(program_id, accounts, title, body, authority)->Ok_0,
            Ok(lamports),
        )->Ok_0.request == (AllocationRequestView {
            payer: accounts[0].key,
            target: accounts[1].key,
            lamports,
            space: 142,
            owner: program_id,
        }),
        create_completion(
            create_funding(
                create_request(program_id, accounts, title, body, authority)->Ok_0,
                Ok(lamports),
            )->Ok_0,
            granted,
            Ok(()),
        ).result is Ok,
        parse_record(
            create_completion(
                create_funding(
                    create_request(program_id, accounts, title, body, authority)->Ok_0,
                    Ok(lamports),
                )->Ok_0,
                granted,
                Ok(()),
            ).accounts[1].data,
        ) == Some(NoteView { authority, title, body }),
{
    let note = NoteView { authority, title, body };
    lemma_record_len(note);
    lemma_store_then_parse(note, granted[1].data);
}

/// The last step of a create resizes no slot and gives no account another
/// identity, whether it succeeds or fails.
pub proof fn lemma_completion_keeps_shape(
    funded: FundedView,
    accounts: Seq<AccountView>,
    allocation: Result<(), u64>,
)
    ensures
        same_shape(accounts, create_completion(funded, accounts, allocation).accounts),
{
}

} // verus!
