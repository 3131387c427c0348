//! A program that keeps a list of tasks in an account.

use vstd::prelude::*;
use vstd::string::*;
use vstd::utf8::encode_utf8;

verus! {

/// The number of bytes that a stored task takes: its id, its name with the
/// length before it, and whether it is completed.
pub const TASK_SIZE: usize = 4 + (4 + 32) + 1;

/// The number of bytes that the name of a task may have.
pub const TASK_NAME_MAX_BYTES: usize = 32;

/// The number of bytes that a stored account takes before its tasks.
pub const ACCOUNT_HEADER_SIZE: usize = 8;

/// One task of the list.
#[derive(Clone, Debug)]
pub struct Task {
    pub id: u32,
    /// The name of the task: at least one byte, at most
    /// `TASK_NAME_MAX_BYTES`.
    pub name: String,
    pub completed: bool,
}

/// What a task holds, as plain values.
pub struct TaskView {
    pub id: u32,
    pub name: Seq<char>,
    pub completed: bool,
}

impl View for Task {
    type V = TaskView;

    open spec fn view(&self) -> TaskView {
        TaskView { id: self.id, name: self.name@, completed: self.completed }
    }
}

/// The account of the program: the tasks of one user.
#[derive(Clone, Debug)]
pub struct TasksAccount {
    tasks: Vec<Task>,
}

impl View for TasksAccount {
    type V = Seq<TaskView>;

    closed spec fn view(&self) -> Seq<TaskView> {
        task_views(self.tasks@)
    }
}

/// Why a list of tasks was rejected.
#[derive(Clone, Copy, Debug, PartialEq, Eq, Structural)]
pub enum ErrorCode {
    TaskNameTooLong,
    TaskNameTooShort,
    TaskIdNotUnique,
}

/// The tasks as plain values.
pub open spec fn task_views(tasks: Seq<Task>) -> Seq<TaskView> {
    Seq::new(tasks.len(), |i: int| tasks[i]@)
}

/// The number of bytes of the name of a task.
pub open spec fn name_bytes(task: TaskView) -> nat {
    encode_utf8(task.name).len()
}

/// Some task has a name of more than `TASK_NAME_MAX_BYTES` bytes.
pub open spec fn has_long_name(tasks: Seq<TaskView>) -> bool {
    exists|i: int| 0 <= i < tasks.len() && name_bytes(#[trigger] tasks[i]) > TASK_NAME_MAX_BYTES
}

/// Some task has an empty name.
pub open spec fn has_empty_name(tasks: Seq<TaskView>) -> bool {
    exists|i: int| 0 <= i < tasks.len() && name_bytes(#[trigger] tasks[i]) < 1
}

/// Two tasks have the same id.
pub open spec fn has_repeated_id(tasks: Seq<TaskView>) -> bool {
    exists|i: int, j: int|
        0 <= i < tasks.len() && 0 <= j < tasks.len() && i != j && (#[trigger] tasks[i]).id == (
        #[trigger] tasks[j]).id
}

/// Whether a list of tasks can be saved: a name that is too long is
/// reported first, then an empty name, then an id that occurs twice.
pub open spec fn validated(tasks: Seq<TaskView>) -> Result<(), ErrorCode> {
    if has_long_name(tasks) {
        Err(ErrorCode::TaskNameTooLong)
    } else if has_empty_name(tasks) {
        Err(ErrorCode::TaskNameTooShort)
    } else if has_repeated_id(tasks) {
        Err(ErrorCode::TaskIdNotUnique)
    } else {
        Ok(())
    }
}

/// The number of bytes that a stored account with `count` tasks takes.
pub open spec fn account_space(count: nat) -> nat {
    ACCOUNT_HEADER_SIZE as nat + TASK_SIZE as nat * count
}

/// The room that the account is to be given before it takes the new list:
/// that of the new list when it has more tasks than the old one, and none
/// when it has not.
pub open spec fn space_to_allocate(old_count: nat, new_count: nat) -> Option<nat> {
    if old_count < new_count {
        Some(account_space(new_count))
    } else {
        None
    }
}

/// Checks that a list of tasks can be saved.
pub fn validate_tasks(tasks: &Vec<Task>) -> (result: Result<(), ErrorCode>)
    ensures
        result == validated(task_views(tasks@)),
{
    let ghost views = task_views(tasks@);
    let mut i: usize = 0;
    while i < tasks.len()
        invariant
            i <= tasks.len(),
            views == task_views(tasks@),
            forall|k: int| 0 <= k < i ==> name_bytes(#[trigger] views[k]) <= TASK_NAME_MAX_BYTES,
        decreases tasks.len() - i,
    {
        assert(views[i as int] == tasks@[i as int]@);
        if tasks[i].name.as_str().as_bytes().len() > TASK_NAME_MAX_BYTES {
            assert(has_long_name(views));
            return Err(ErrorCode::TaskNameTooLong);
        }
        i += 1;
    }
    let mut i: usize = 0;
    while i < tasks.len()
        invariant
            i <= tasks.len(),
            views == task_views(tasks@),
            !has_long_name(views),
            forall|k: int| 0 <= k < i ==> name_bytes(#[trigger] views[k]) >= 1,
        decreases tasks.len() - i,
    {
        assert(views[i as int] == tasks@[i as int]@);
        if tasks[i].name.as_str().as_bytes().len() < 1 {
            assert(has_empty_name(views));
            return Err(ErrorCode::TaskNameTooShort);
        }
        i += 1;
    }
    let mut i: usize = 0;
    while i < tasks.len()
        invariant
            i <= tasks.len(),
            views == task_views(tasks@),
            !has_long_name(views),
            !has_empty_name(views),
            forall|a: int, b: int|
                0 <= a < i && 0 <= b < views.len() && a != b ==> (#[trigger] views[a]).id != (
                #[trigger] views[b]).id,
        decreases tasks.len() - i,
    {
        let mut j: usize = 0;
        while j < tasks.len()
            invariant
                i < tasks.len(),
                j <= tasks.len(),
                views == task_views(tasks@),
                !has_long_name(views),
                !has_empty_name(views),
                forall|b: int|
                    0 <= b < j && i != b ==> views[i as int].id != (#[trigger] views[b]).id,
            decreases tasks.len() - j,
        {
            assert(views[i as int] == tasks@[i as int]@);
            assert(views[j as int] == tasks@[j as int]@);
            if i != j && tasks[i].id == tasks[j].id {
                assert(has_repeated_id(views));
                return Err(ErrorCode::TaskIdNotUnique);
            }
            j += 1;
        }
        i += 1;
    }
    assert(!has_repeated_id(views));
    Ok(())
}

/// What is missing from `lamports` to reach `minimum_balance`, and zero when
/// nothing is.
pub fn rent_shortfall(minimum_balance: u64, lamports: u64) -> (shortfall: u64)
    ensures
        shortfall == if minimum_balance > lamports {
            minimum_balance - lamports
        } else {
            0
        },
{
    if minimum_balance > lamports {
        minimum_balance - lamports
    } else {
        0
    }
}

impl TasksAccount {
    /// An account without tasks.
    pub fn new() -> (account: TasksAccount)
        ensures
            account@ == Seq::<TaskView>::empty(),
    {
        let account = TasksAccount { tasks: Vec::new() };
        assert(account@ =~= Seq::<TaskView>::empty());
        account
    }

    /// The account that holds the given tasks, which are not checked.
    pub fn from_tasks(tasks: Vec<Task>) -> (account: TasksAccount)
        ensures
            account@ == task_views(tasks@),
    {
        TasksAccount { tasks }
    }

    /// The tasks of the account.
    pub fn tasks(&self) -> (tasks: &Vec<Task>)
        ensures
            task_views(tasks@) == self@,
    {
        &self.tasks
    }
}

/// Replaces the tasks of the account by `replacing_tasks`.
///
/// The list is rejected, and the account left as it is, when a name has more
/// than `TASK_NAME_MAX_BYTES` bytes, else when a name is empty, else when an
/// id occurs twice. Otherwise the account takes the list. The result then
/// says how many bytes the stored account is to be given room for, which is
/// asked only when the new list has more tasks than the old one.
///
/// The room for the new list is to fit in a `usize`.
pub fn save_tasks(tasks: &mut TasksAccount, replacing_tasks: Vec<Task>) -> (result: Result<
    Option<usize>,
    ErrorCode,
>)
    requires
        account_space(replacing_tasks@.len()) <= usize::MAX,
    ensures
        match validated(task_views(replacing_tasks@)) {
            Ok(_) => {
                &&& final(tasks)@ == task_views(replacing_tasks@)
                &&& result is Ok
                &&& match space_to_allocate(old(tasks)@.len(), replacing_tasks@.len()) {
                    Some(space) => result == Ok::<Option<usize>, ErrorCode>(Some(space as usize)),
                    None => result == Ok::<Option<usize>, ErrorCode>(None),
                }
            },
            Err(e) => result == Err::<Option<usize>, ErrorCode>(e) && *final(tasks) == *old(tasks),
        },
{
    match validate_tasks(&replacing_tasks) {
        Ok(_) => {},
        Err(e) => {
            return Err(e);
        },
    }
    let space = if tasks.tasks.len() < replacing_tasks.len() {
        Some(ACCOUNT_HEADER_SIZE + TASK_SIZE * replacing_tasks.len())
    } else {
        None
    };
    tasks.tasks = replacing_tasks;
    Ok(space)
}

} // verus!
