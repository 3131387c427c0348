//! A program that stores one message in an account.
//!
//! The payload of a call is the message as UTF-8 text of at most `BUF_LEN`
//! bytes. It is stored filled up with spaces to `BUF_LEN` characters, so that
//! a message of plain ASCII always takes the same room.

use vstd::prelude::*;
use vstd::string::*;
use vstd::slice::slice_to_vec;
use vstd::utf8::{valid_utf8, decode_utf8, encode_utf8, is_ascii_chars};
use crate::identity::Identity;
use crate::account::{Account, AccountView, ProgramError, account_views, overwritten, write_stored};
use crate::encoding::{stored_string, string_to_stored, lemma_encode_utf8_concat};

verus! {

/// The number of characters that a stored message is filled up to, and the
/// number of bytes that a message may have when it comes in.
pub const BUF_LEN: usize = 280;

/// What the account of the program holds.
#[derive(Debug)]
pub struct MessageAccount {
    /// The message, filled up with spaces.
    pub message: String,
}

/// `count` spaces.
pub open spec fn spaces(count: nat) -> Seq<char> {
    Seq::new(count, |i: int| ' ')
}

/// The text filled up with spaces at its end to `BUF_LEN` characters. A text
/// that long or longer stays as it is.
pub open spec fn padded(text: Seq<char>) -> Seq<char> {
    if text.len() < BUF_LEN {
        text + spaces((BUF_LEN - text.len()) as nat)
    } else {
        text
    }
}

/// What a call does to the bytes `data` of the account when its payload is
/// `instruction_data`: the payload is rejected unless it is valid UTF-8 of at
/// most `BUF_LEN` bytes, and the stored form of the padded message is written
/// over the beginning of the bytes if they have room for it.
pub open spec fn stored_message(data: Seq<u8>, instruction_data: Seq<u8>) -> Result<
    Seq<u8>,
    ProgramError,
> {
    if !valid_utf8(instruction_data) || instruction_data.len() > BUF_LEN {
        Err(ProgramError::InvalidInstructionData)
    } else {
        let stored = stored_string(padded(decode_utf8(instruction_data)));
        if stored.len() > data.len() {
            Err(ProgramError::BorshIoError)
        } else {
            Ok(overwritten(data, stored))
        }
    }
}

/// What a call of the program does to the accounts: it is rejected when no
/// account is named, else when the first account is not owned by the program,
/// and else as `stored_message` says of the bytes of the first account. No
/// other account changes.
pub open spec fn processed(
    program_id: Identity,
    accounts: Seq<AccountView>,
    instruction_data: Seq<u8>,
) -> Result<Seq<AccountView>, ProgramError> {
    if accounts.len() == 0 {
        Err(ProgramError::NotEnoughAccountKeys)
    } else if accounts[0].owner != program_id {
        Err(ProgramError::IncorrectProgramId)
    } else {
        match stored_message(accounts[0].data, instruction_data) {
            Ok(data) => Ok(accounts.update(0, AccountView { data, ..accounts[0] })),
            Err(e) => Err(e),
        }
    }
}

/// The UTF-8 bytes of spaces are as many as the spaces.
pub proof fn lemma_spaces_bytes(count: nat)
    ensures
        encode_utf8(spaces(count)).len() == count,
{
    assert(is_ascii_chars(spaces(count)));
    vstd::utf8::is_ascii_chars_encode_utf8(spaces(count));
}

/// A padded text has at least `BUF_LEN` characters, and its bytes are those
/// of the text and one more for each space added.
pub proof fn lemma_padded(text: Seq<char>)
    ensures
        padded(text).len() == if text.len() < BUF_LEN {
            BUF_LEN as nat
        } else {
            text.len()
        },
        encode_utf8(padded(text)).len() == encode_utf8(text).len() + padded(text).len()
            - text.len(),
{
    if text.len() < BUF_LEN {
        let fill = spaces((BUF_LEN - text.len()) as nat);
        lemma_encode_utf8_concat(text, fill);
        lemma_spaces_bytes((BUF_LEN - text.len()) as nat);
    }
}

/// Fills the message up with spaces at its end to `BUF_LEN` characters.
pub fn pad_message(message: String) -> (result: String)
    ensures
        result@ == padded(message@),
{
    let count = message.as_str().unicode_len();
    let mut result = message;
    let mut length = count;
    while length < BUF_LEN
        invariant
            count <= length,
            count < BUF_LEN ==> length <= BUF_LEN,
            count >= BUF_LEN ==> length == count,
            count == message@.len(),
            result@ == message@ + spaces((length - count) as nat),
        decreases BUF_LEN - length,
    {
        proof {
            reveal_strlit(" ");
        }
        result.append(" ");
        length += 1;
        assert(result@ =~= message@ + spaces((length - count) as nat));
    }
    assert(result@ =~= padded(message@));
    result
}

impl MessageAccount {
    /// The stored form of the account: that of its message.
    pub fn try_to_vec(&self) -> (result: Result<Vec<u8>, std::io::Error>)
        ensures
            result is Ok <==> encode_utf8(self.message@).len() <= u32::MAX,
            result matches Ok(bytes) ==> bytes@ == stored_string(self.message@),
    {
        string_to_stored(&self.message)
    }
}

/// Stores the message that `instruction_data` holds in the first of
/// `accounts`.
///
/// The call is rejected, and the accounts left as they are, when no account
/// is named; when the first account is not owned by `program_id`; when the
/// payload is not valid UTF-8 or has more than `BUF_LEN` bytes; and when the
/// account has no room for the stored message. Otherwise the message, filled
/// up with spaces to `BUF_LEN` characters, is written in its stored form over
/// the beginning of the account's bytes.
pub fn process_instruction(
    program_id: &Identity,
    accounts: &mut Vec<Account>,
    instruction_data: &[u8],
) -> (result: Result<(), ProgramError>)
    ensures
        match processed(*program_id, account_views(old(accounts)@), instruction_data@) {
            Ok(next) => result is Ok && account_views(final(accounts)@) == next,
            Err(e) => result == Err::<(), ProgramError>(e) && account_views(final(accounts)@)
                == account_views(old(accounts)@),
        },
{
    if accounts.len() == 0 {
        return Err(ProgramError::NotEnoughAccountKeys);
    }
    if accounts[0].owner != *program_id {
        return Err(ProgramError::IncorrectProgramId);
    }
    let message = match String::from_utf8(slice_to_vec(instruction_data)) {
        Ok(message) => message,
        Err(_) => {
            return Err(ProgramError::InvalidInstructionData);
        },
    };
    proof {
        vstd::utf8::encode_utf8_decode_utf8(message@);
        lemma_padded(message@);
        assert(instruction_data@.len() == instruction_data.len());
    }
    if message.as_str().len() > BUF_LEN {
        return Err(ProgramError::InvalidInstructionData);
    }
    let message_account = MessageAccount { message: pad_message(message) };
    let stored = match message_account.try_to_vec() {
        Ok(stored) => stored,
        Err(_) => {
            return Err(ProgramError::BorshIoError);
        },
    };
    let result = write_stored(&mut accounts[0].data, &stored);
    proof {
        let before = account_views(old(accounts)@);
        let after = account_views(accounts@);
        if result is Ok {
            assert(after =~= before.update(0, AccountView { data: accounts@[0].data@, ..before[0] }));
        } else {
            assert(after =~= before);
        }
    }
    result
}

} // verus!
