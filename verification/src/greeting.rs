//! A program that counts in an account how often it was greeted.

use vstd::prelude::*;
use crate::identity::Identity;
use crate::account::{Account, AccountView, ProgramError, account_views, write_stored};
use crate::encoding::{stored_u32, loaded_u32, u32_from_stored, u32_to_stored};

verus! {

/// What the account of the program holds.
#[derive(Debug)]
pub struct GreetingAccount {
    /// The number of greetings.
    pub counter: u32,
}

impl GreetingAccount {
    /// The account that the bytes hold. They are to be the four
    /// little-endian bytes of the counter, and nothing else.
    pub fn try_from_slice(data: &[u8]) -> (result: Result<GreetingAccount, std::io::Error>)
        ensures
            result is Ok <==> data@.len() == 4,
            result matches Ok(account) ==> account.counter == loaded_u32(data@),
    {
        match u32_from_stored(data) {
            Ok(counter) => Ok(GreetingAccount { counter }),
            Err(e) => Err(e),
        }
    }

    /// The stored form of the account: the four little-endian bytes of the
    /// counter.
    pub fn try_to_vec(&self) -> (result: Result<Vec<u8>, std::io::Error>)
        ensures
            result is Ok,
            result matches Ok(bytes) ==> bytes@ == stored_u32(self.counter as nat),
    {
        u32_to_stored(self.counter)
    }
}

/// The counter that a call is about to raise, if the call gets that far: the
/// first account is owned by the program and holds four bytes.
pub open spec fn counter_before(program_id: Identity, accounts: Seq<AccountView>) -> Option<nat> {
    if accounts.len() > 0 && accounts[0].owner == program_id && accounts[0].data.len() == 4 {
        Some(loaded_u32(accounts[0].data))
    } else {
        None
    }
}

/// What a call of the program does to the accounts: it is rejected when no
/// account is named, else when the first account is not owned by the program,
/// else when its bytes are not those of a counter; and otherwise the first
/// account holds the bytes of the counter raised by one. No other account
/// changes.
pub open spec fn processed(program_id: Identity, accounts: Seq<AccountView>) -> Result<
    Seq<AccountView>,
    ProgramError,
> {
    if accounts.len() == 0 {
        Err(ProgramError::NotEnoughAccountKeys)
    } else if accounts[0].owner != program_id {
        Err(ProgramError::IncorrectProgramId)
    } else if accounts[0].data.len() != 4 {
        Err(ProgramError::BorshIoError)
    } else {
        Ok(
            accounts.update(
                0,
                AccountView { data: stored_u32(loaded_u32(accounts[0].data) + 1), ..accounts[0] },
            ),
        )
    }
}

/// Raises the counter in the first of `accounts` by one. The payload of the
/// call is not looked at.
///
/// The call is rejected, and the accounts left as they are, when no account
/// is named; when the first account is not owned by `program_id`; and when
/// the bytes of the account are not exactly those of a counter.
///
/// A counter that has reached `u32::MAX` is not to be raised.
pub fn process_instruction(
    program_id: &Identity,
    accounts: &mut Vec<Account>,
    _instruction_data: &[u8],
) -> (result: Result<(), ProgramError>)
    requires
        counter_before(*program_id, account_views(old(accounts)@)) != Some(u32::MAX as nat),
    ensures
        match processed(*program_id, account_views(old(accounts)@)) {
            Ok(next) => result is Ok && account_views(final(accounts)@) == next,
            Err(e) => result == Err::<(), ProgramError>(e) && account_views(final(accounts)@)
                == account_views(old(accounts)@),
        },
{
    if accounts.len() == 0 {
        return Err(ProgramError::NotEnoughAccountKeys);
    }
    if accounts[0].owner != *program_id {
        return Err(ProgramError::IncorrectProgramId);
    }
    let mut greeting_account = match GreetingAccount::try_from_slice(accounts[0].data.as_slice()) {
        Ok(account) => account,
        Err(_) => {
            return Err(ProgramError::BorshIoError);
        },
    };
    greeting_account.counter += 1;
    let stored = match greeting_account.try_to_vec() {
        Ok(stored) => stored,
        Err(_) => {
            return Err(ProgramError::BorshIoError);
        },
    };
    let result = write_stored(&mut accounts[0].data, &stored);
    proof {
        let before = account_views(old(accounts)@);
        assert(accounts@[0].data@ =~= stored@);
        assert(account_views(accounts@) =~= before.update(
            0,
            AccountView { data: stored@, ..before[0] },
        ));
    }
    result
}

} // verus!
