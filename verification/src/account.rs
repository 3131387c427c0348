//! An account as the programs see it: who owns it, and the bytes it holds.

use vstd::prelude::*;
use crate::identity::Identity;

verus! {

/// Why a program rejected a call.
#[derive(Clone, Copy, Debug, PartialEq, Eq, Structural)]
pub enum ProgramError {
    /// The account is not owned by the program.
    IncorrectProgramId,
    /// The payload of the call is not what the program takes.
    InvalidInstructionData,
    /// The call names no account.
    NotEnoughAccountKeys,
    /// The account's bytes do not hold the stored value, or have no room for
    /// it.
    BorshIoError,
}

/// An account: the program that owns it, and its bytes.
#[derive(Clone, Debug)]
pub struct Account {
    pub owner: Identity,
    pub data: Vec<u8>,
}

/// What an account holds, as plain values.
pub struct AccountView {
    pub owner: Identity,
    pub data: Seq<u8>,
}

impl View for Account {
    type V = AccountView;

    open spec fn view(&self) -> AccountView {
        AccountView { owner: self.owner, data: self.data@ }
    }
}

/// The accounts as plain values.
pub open spec fn account_views(accounts: Seq<Account>) -> Seq<AccountView> {
    Seq::new(accounts.len(), |i: int| accounts[i]@)
}

impl Account {
    pub fn new(owner: Identity, data: Vec<u8>) -> (account: Account)
        ensures
            account.owner == owner,
            account.data == data,
    {
        Account { owner, data }
    }
}

/// The bytes `data` with `stored` written over their beginning. It means
/// something only when `stored` is no longer than `data`.
pub open spec fn overwritten(data: Seq<u8>, stored: Seq<u8>) -> Seq<u8> {
    stored + data.skip(stored.len() as int)
}

/// Writes `stored` over the beginning of `data`, which keeps its length. When
/// `stored` is longer than `data` nothing is written.
pub fn write_stored(data: &mut Vec<u8>, stored: &Vec<u8>) -> (result: Result<(), ProgramError>)
    ensures
        stored@.len() <= old(data)@.len() ==> result is Ok && final(data)@ == overwritten(
            old(data)@,
            stored@,
        ),
        stored@.len() > old(data)@.len() ==> result == Err::<(), ProgramError>(
            ProgramError::BorshIoError,
        ) && *final(data) == *old(data),
{
    if stored.len() > data.len() {
        return Err(ProgramError::BorshIoError);
    }
    let mut i: usize = 0;
    while i < stored.len()
        invariant
            i <= stored@.len() <= data@.len(),
            data@.len() == old(data)@.len(),
            forall|j: int| 0 <= j < i ==> data@[j] == stored@[j],
            forall|j: int| i <= j < data@.len() ==> data@[j] == old(data)@[j],
        decreases stored@.len() - i,
    {
        data[i] = stored[i];
        i += 1;
    }
    assert(data@ =~= overwritten(old(data)@, stored@));
    Ok(())
}

} // verus!
