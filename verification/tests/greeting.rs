use onchain_programs::account::{Account, ProgramError};
use onchain_programs::greeting::{process_instruction, GreetingAccount};
use onchain_programs::identity::Identity;

#[test]
fn greeting_raises_the_counter() {
    let program_id = Identity::new([3; 32]);
    let mut accounts = vec![Account::new(program_id, vec![0, 0, 0, 0])];
    assert_eq!(process_instruction(&program_id, &mut accounts, &[]), Ok(()));
    assert_eq!(accounts[0].data, vec![1, 0, 0, 0]);
    assert_eq!(process_instruction(&program_id, &mut accounts, &[1, 2, 3]), Ok(()));
    assert_eq!(accounts[0].data, vec![2, 0, 0, 0]);
}

#[test]
fn greeting_carries_into_the_next_byte() {
    let program_id = Identity::new([3; 32]);
    let mut accounts = vec![Account::new(program_id, vec![255, 0, 0, 0])];
    assert_eq!(process_instruction(&program_id, &mut accounts, &[]), Ok(()));
    assert_eq!(accounts[0].data, vec![0, 1, 0, 0]);
    let mut accounts = vec![Account::new(program_id, vec![255, 255, 255, 0])];
    assert_eq!(process_instruction(&program_id, &mut accounts, &[]), Ok(()));
    assert_eq!(accounts[0].data, vec![0, 0, 0, 1]);
    let mut accounts = vec![Account::new(program_id, vec![254, 255, 255, 255])];
    assert_eq!(process_instruction(&program_id, &mut accounts, &[]), Ok(()));
    assert_eq!(accounts[0].data, vec![255, 255, 255, 255]);
}

#[test]
fn greeting_rejects_bytes_of_another_length() {
    let program_id = Identity::new([3; 32]);
    let mut accounts = vec![Account::new(program_id, vec![0, 0, 0])];
    assert_eq!(
        process_instruction(&program_id, &mut accounts, &[]),
        Err(ProgramError::BorshIoError)
    );
    assert_eq!(accounts[0].data, vec![0, 0, 0]);
    let mut accounts = vec![Account::new(program_id, vec![0, 0, 0, 0, 0])];
    assert_eq!(
        process_instruction(&program_id, &mut accounts, &[]),
        Err(ProgramError::BorshIoError)
    );
    assert_eq!(accounts[0].data, vec![0, 0, 0, 0, 0]);
}

#[test]
fn greeting_checks_accounts_and_owner() {
    let program_id = Identity::new([3; 32]);
    let mut accounts = vec![];
    assert_eq!(
        process_instruction(&program_id, &mut accounts, &[]),
        Err(ProgramError::NotEnoughAccountKeys)
    );
    let mut accounts = vec![Account::new(Identity::new([4; 32]), vec![0, 0, 0])];
    assert_eq!(
        process_instruction(&program_id, &mut accounts, &[]),
        Err(ProgramError::IncorrectProgramId)
    );
}

#[test]
fn greeting_account_stored_form() {
    let account = GreetingAccount { counter: 0x0403_0201 };
    assert_eq!(account.try_to_vec().unwrap(), vec![1, 2, 3, 4]);
    let account = GreetingAccount::try_from_slice(&[1, 2, 3, 4]).unwrap();
    assert_eq!(account.counter, 0x0403_0201);
    let account = GreetingAccount::try_from_slice(&[0, 0, 0, 128]).unwrap();
    assert_eq!(account.counter, 1 << 31);
    assert!(GreetingAccount::try_from_slice(&[1, 2, 3]).is_err());
    assert!(GreetingAccount::try_from_slice(&[1, 2, 3, 4, 5]).is_err());
    assert!(GreetingAccount::try_from_slice(&[]).is_err());
}
