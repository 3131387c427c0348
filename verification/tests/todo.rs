use onchain_programs::todo::{
    rent_shortfall, save_tasks, validate_tasks, ErrorCode, Task, TasksAccount, TASK_SIZE,
};

fn task(id: u32, name: &str) -> Task {
    Task { id, name: String::from(name), completed: false }
}

#[test]
fn tasks_are_saved_and_room_is_asked_for() {
    assert_eq!(TASK_SIZE, 41);
    let mut account = TasksAccount::new();
    let result = save_tasks(&mut account, vec![task(1, "a"), task(2, "b")]);
    assert_eq!(result, Ok(Some(8 + 41 * 2)));
    assert_eq!(account.tasks().len(), 2);
    assert_eq!(account.tasks()[0].id, 1);
    assert_eq!(account.tasks()[1].name, "b");

    // As many tasks as before: no more room is needed.
    let mut done = task(5, "c");
    done.completed = true;
    let result = save_tasks(&mut account, vec![task(3, "x"), done]);
    assert_eq!(result, Ok(None));
    assert_eq!(account.tasks()[0].id, 3);
    assert!(account.tasks()[1].completed);

    // Fewer tasks: none either.
    let result = save_tasks(&mut account, vec![]);
    assert_eq!(result, Ok(None));
    assert_eq!(account.tasks().len(), 0);

    let result = save_tasks(&mut account, vec![task(9, "z")]);
    assert_eq!(result, Ok(Some(49)));
}

#[test]
fn task_names_are_measured_in_bytes() {
    let longest = "n".repeat(32);
    assert_eq!(validate_tasks(&vec![task(1, &longest)]), Ok(()));
    let too_long = "n".repeat(33);
    assert_eq!(validate_tasks(&vec![task(1, &too_long)]), Err(ErrorCode::TaskNameTooLong));
    // Seventeen characters of two bytes each are 34 bytes.
    let wide = "é".repeat(17);
    assert_eq!(validate_tasks(&vec![task(1, &wide)]), Err(ErrorCode::TaskNameTooLong));
    assert_eq!(validate_tasks(&vec![task(1, &"é".repeat(16))]), Ok(()));
    assert_eq!(validate_tasks(&vec![task(1, "")]), Err(ErrorCode::TaskNameTooShort));
}

#[test]
fn task_ids_are_to_differ() {
    assert_eq!(
        validate_tasks(&vec![task(1, "a"), task(2, "b"), task(1, "c")]),
        Err(ErrorCode::TaskIdNotUnique)
    );
    assert_eq!(validate_tasks(&vec![task(1, "a"), task(2, "a"), task(3, "a")]), Ok(()));
    assert_eq!(validate_tasks(&vec![]), Ok(()));
}

#[test]
fn task_errors_come_in_order() {
    let too_long = "n".repeat(40);
    // An empty name stands first, a long one second: the long one is reported.
    assert_eq!(
        validate_tasks(&vec![task(1, ""), task(1, &too_long)]),
        Err(ErrorCode::TaskNameTooLong)
    );
    assert_eq!(
        validate_tasks(&vec![task(1, "a"), task(1, "b"), task(2, "")]),
        Err(ErrorCode::TaskNameTooShort)
    );
}

#[test]
fn rejected_tasks_leave_the_account() {
    let mut account = TasksAccount::from_tasks(vec![task(4, "keep")]);
    let result = save_tasks(&mut account, vec![task(1, "a"), task(1, "b")]);
    assert_eq!(result, Err(ErrorCode::TaskIdNotUnique));
    assert_eq!(account.tasks().len(), 1);
    assert_eq!(account.tasks()[0].id, 4);
    assert_eq!(account.tasks()[0].name, "keep");
}

#[test]
fn rent_shortfall_never_goes_below_zero() {
    assert_eq!(rent_shortfall(1_000, 400), 600);
    assert_eq!(rent_shortfall(400, 1_000), 0);
    assert_eq!(rent_shortfall(7, 7), 0);
    assert_eq!(rent_shortfall(u64::MAX, 0), u64::MAX);
}
