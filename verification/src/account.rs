//! Accounts as plain values, and the shape every transition has.

use crate::error::ProgramError;
use crate::pubkey::Pubkey;
use vstd::prelude::*;

verus! {

/// An account as an instruction sees it: its identity, its balance and the
/// bytes of its storage slot.
#[derive(Clone, Debug, PartialEq, Eq)]
pub struct Account {
    pub key: Pubkey,
    pub lamports: u64,
    pub data: Vec<u8>,
}

/// An account as a mathematical value.
pub ghost struct AccountView {
    pub key: Seq<u8>,
    pub lamports: u64,
    pub data: Seq<u8>,
}

impl View for Account {
    type V = AccountView;

    open spec fn view(&self) -> AccountView {
        AccountView { key: self.key@, lamports: self.lamports, data: self.data@ }
    }
}

/// The accounts of a list, each as a mathematical value.
pub open spec fn views(accounts: Seq<Account>) -> Seq<AccountView> {
    Seq::new(accounts.len(), |i: int| accounts[i]@)
}

/// `account` with `data` in its slot.
pub open spec fn with_data(account: AccountView, data: Seq<u8>) -> AccountView {
    AccountView { key: account.key, lamports: account.lamports, data }
}

/// How a transition ends: with what result, and with which accounts.
pub ghost struct Transition {
    pub result: Result<(), ProgramError>,
    pub accounts: Seq<AccountView>,
}

/// The transition that fails with `e` and changes nothing.
pub open spec fn refused(accounts: Seq<AccountView>, e: ProgramError) -> Transition {
    Transition { result: Err(e), accounts }
}

/// The transition that succeeds and leaves `accounts`.
pub open spec fn applied(accounts: Seq<AccountView>) -> Transition {
    Transition { result: Ok(()), accounts }
}

/// Whether `after` has the accounts of `before` with slots of the same
/// lengths: none has come or gone, and none has another identity or another
/// size.
pub open spec fn same_shape(before: Seq<AccountView>, after: Seq<AccountView>) -> bool {
    &&& after.len() == before.len()
    &&& forall|i: int|
        0 <= i < before.len() ==> (#[trigger] after[i]).key == before[i].key && after[i].data.len()
            == before[i].data.len()
}

} // verus!
