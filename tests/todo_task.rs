use web_crawler::todo::error::{Error, IoFailure};
use web_crawler::todo::task::{decimal_string, Task, Tasks};

const INCOMPLETE_TASK_PREFIX: &str = "[ ] ";
const COMPLETED_TASK_PREFIX: &str = "[x] ";
const FIRST_TASK: &str = "First thing to do.";
const SECOND_TASK: &str = "Second thing to do.";
const SOME_RANDOM_TASKS: &str =
    "[ ] First thing to do.\n[x] Some random stuff.\n[ ] More things to do.";

#[test]
pub fn task_parse_empty_string_should_return_error() {
    let input = "";
    let task = Task::parse(input);
    assert!(
        task.is_err(),
        "Task parse empty string should return an error."
    );
}

#[test]
pub fn task_parse_invalid_format_should_return_error() {
    let input = "A random sentence.";
    let task = Task::parse(input);
    assert!(
        task.is_err(),
        "Task parse an invalid input format should return an error."
    );
}

#[test]
pub fn task_parse_incomplete_task() {
    let input = format!("{}{}", INCOMPLETE_TASK_PREFIX, FIRST_TASK);
    let task = Task::parse(&input).unwrap();
    assert!(
        !task.completed,
        "Task parse an incomplete task string returned a completed task."
    );
    assert_eq!(
        task.description, FIRST_TASK,
        "Task parse an incomplete task string returned incorrect description."
    );
}

#[test]
pub fn task_parse_completed_task() {
    let input = format!("{}{}", COMPLETED_TASK_PREFIX, FIRST_TASK);
    let task = Task::parse(&input).unwrap();
    assert!(
        task.completed,
        "Task parse a completed task string returned an incomplete task."
    );
    assert_eq!(
        task.description, FIRST_TASK,
        "Task parse a completed task string returned incorrect description."
    );
}

#[test]
pub fn task_edit_should_update_title() {
    let mut task = Task::new(FIRST_TASK);
    let previous: String = task.edit(SECOND_TASK).into();
    assert_eq!(
        task.description, SECOND_TASK,
        "Task edit method failed to update task title."
    );
    assert_eq!(
        previous, FIRST_TASK,
        "Task edit method should return the previous description."
    )
}

#[test]
pub fn task_persistence_format_incomplete_task() {
    let task = Task::new(FIRST_TASK);
    assert_eq!(
        task.persistence_format(),
        format!("{}{}", INCOMPLETE_TASK_PREFIX, FIRST_TASK)
    );
}

#[test]
pub fn task_persistence_format_completed_task() {
    let mut task = Task::new(FIRST_TASK);
    task.complete();
    assert_eq!(
        task.persistence_format(),
        format!("{}{}", COMPLETED_TASK_PREFIX, FIRST_TASK)
    );
}

#[test]
pub fn tasks_parse_empty_string() {
    let input = "";
    let tasks = Tasks::parse(input).unwrap();
    assert!(tasks.is_empty());
}

#[test]
pub fn tasks_parse_input_with_empty_line() {
    let input = format!(
        "{}{}\n\n{}{}",
        COMPLETED_TASK_PREFIX, FIRST_TASK, INCOMPLETE_TASK_PREFIX, SECOND_TASK
    );
    let tasks = Tasks::parse(&input).unwrap();
    assert_eq!(tasks.len(), 2);
}

#[test]
pub fn tasks_parse_input() {
    let input = SOME_RANDOM_TASKS;
    let tasks = Tasks::parse(input).unwrap();
    assert_eq!(tasks.len(), 3);
}

#[test]
pub fn tasks_add_should_add_new_task() {
    let mut tasks = Tasks::new();
    tasks.add(FIRST_TASK);
    assert_eq!(tasks.len(), 1, "Tasks add method failed to add new task.");
}

#[test]
pub fn tasks_edit_should_update_task_description() {
    let mut tasks = Tasks::parse(SOME_RANDOM_TASKS).unwrap();
    tasks.edit(0, FIRST_TASK).unwrap();
    let task = tasks.get(0).unwrap();
    assert_eq!(
        task.description, FIRST_TASK,
        "Tasks edit method failed to update task title."
    );
}

#[test]
pub fn tasks_delete_should_remove_task() {
    let mut tasks = Tasks::parse(SOME_RANDOM_TASKS).unwrap();
    tasks.delete(0).unwrap();
    assert_eq!(tasks.len(), 2, "Tasks delete method failed to remove task.");
}

#[test]
pub fn tasks_complete_should_set_task_as_completed() {
    let mut tasks = Tasks::new();
    tasks.add(FIRST_TASK);
    tasks.complete(0).unwrap();
    let task = tasks.get(0).unwrap();
    assert!(
        task.completed,
        "Tasks complete method failed to set task as completed."
    );
}

#[test]
pub fn tasks_prune_should_remove_completed_tasks() {
    let mut tasks = Tasks::parse(SOME_RANDOM_TASKS).unwrap();
    tasks.prune();
    assert_eq!(
        tasks.len(),
        2,
        "Tasks prune method failed to remove completed tasks."
    );
}

#[test]
pub fn tasks_persistence_format() {
    let mut task_list = Tasks::new();
    task_list.add(FIRST_TASK);
    task_list.add(SECOND_TASK);
    task_list.complete(0).unwrap();
    assert_eq!(
        task_list.persistence_format(),
        format!(
            "{}{}\n{}{}",
            COMPLETED_TASK_PREFIX, FIRST_TASK, INCOMPLETE_TASK_PREFIX, SECOND_TASK
        ),
        "Tasks persistence format method returned incorrect string."
    );
}

#[test]
fn tasks_parse_reports_the_first_bad_line() {
    match Tasks::parse("[ ] ok\nbad one\nworse") {
        Err(Error::ParseTask(line)) => assert_eq!(line, "bad one"),
        _ => panic!("expected a parse error"),
    }
}

#[test]
fn tasks_parse_keeps_description_after_prefix() {
    let tasks = Tasks::parse("[x] done\n[ ] todo\n").unwrap();
    assert_eq!(tasks.len(), 2);
    assert_eq!(tasks.get(0).unwrap().description, "done");
    assert!(tasks.get(0).unwrap().completed);
    assert_eq!(tasks.get(1).unwrap().description, "todo");
    assert!(tasks.get(2).is_none());
}

#[test]
fn tasks_print_incomplete_numbers_by_position() {
    let tasks = Tasks::parse(SOME_RANDOM_TASKS).unwrap();
    assert_eq!(
        tasks.print_incomplete(),
        "1: First thing to do.\n3: More things to do."
    );
}

#[test]
fn tasks_out_of_range_is_invalid_sequence() {
    let mut tasks = Tasks::new();
    assert!(matches!(tasks.edit(0, "x"), Err(Error::InvalidSequence)));
    assert!(matches!(tasks.delete(0), Err(Error::InvalidSequence)));
    assert!(matches!(tasks.complete(0), Err(Error::InvalidSequence)));
}

#[test]
fn tasks_prune_returns_how_many_are_left() {
    let mut tasks = Tasks::parse("[x] a\n[x] b\n[ ] c").unwrap();
    assert_eq!(tasks.prune(), 1);
    assert_eq!(tasks.persistence_format(), "[ ] c");
}

#[test]
fn task_sequence_format_writes_number_and_description() {
    let task = Task::new("walk");
    assert_eq!(task.sequence_format(12), "12: walk");
}

#[test]
fn todo_error_messages() {
    assert_eq!(Error::ParseSequence.message(), "Input sequence is not a number");
    assert_eq!(Error::InvalidSequence.message(), "Input sequence number does not exist");
    assert_eq!(Error::MissingDescription.message(), "Missing task description");
    assert_eq!(Error::ParseTask("x".to_string()).message(), "Error parsing to-do(s)");
    assert_eq!(
        Error::Io(IoFailure::NotFound).message(),
        "Error opening file: file not found"
    );
    assert_eq!(
        Error::Io(IoFailure::PermissionDenied).message(),
        "Error opening file: permission denied"
    );
    assert_eq!(Error::Io(IoFailure::Other("disk".to_string())).message(), "disk");
}

#[test]
fn decimal_string_writes_digits() {
    assert_eq!(decimal_string(0), "0");
    assert_eq!(decimal_string(7), "7");
    assert_eq!(decimal_string(10), "10");
    assert_eq!(decimal_string(40213), "40213");
    assert_eq!(decimal_string(usize::MAX), usize::MAX.to_string());
}
