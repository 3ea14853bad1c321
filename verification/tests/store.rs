use std::collections::HashSet;
use todos::app_error::AppError;
use todos::deadline::{OptionalDeadlineInput, USER_DATE_TIME_FORMAT};
use todos::query::{Query, QuerySort};
use todos::result_limit::OptionalResultLimit;
use todos::title::{Title, MAX_TITLE_LEN};
use todos::todos::{NewTodo, Priority, Status, Todo, TodoList, UpdateTodo};

const NON_EXISTENT_ID: u128 = 0x67e55044_10b1_426f_9247_bb680e5fe0c8;

fn new_todo(title: &str, priority: Priority) -> NewTodo {
    NewTodo {
        title: Title::new(title.to_string()),
        priority,
        deadline: OptionalDeadlineInput::none(),
    }
}

fn too_long_title() -> String {
    "a".repeat(MAX_TITLE_LEN + 1)
}

fn update_status(todos: &mut TodoList, id: u128, status: Status) -> Todo {
    todos
        .update(id, &UpdateTodo::builder().status(Some(status)).build())
        .unwrap()
}

fn update_priority(todos: &mut TodoList, id: u128, priority: Priority) -> Todo {
    todos
        .update(id, &UpdateTodo::builder().priority(Some(priority)).build())
        .unwrap()
}

fn update_deadline(todos: &mut TodoList, id: u128, deadline: OptionalDeadlineInput) -> Todo {
    todos
        .update(id, &UpdateTodo::builder().deadline(deadline).build())
        .unwrap()
}

/// Adds nine records titled "a".."i": a-c Low, d-f Medium, g-i High.
fn add_todos(todos: &mut TodoList) -> Vec<Todo> {
    let mut out = Vec::new();
    for (title, priority) in [
        ("a", Priority::Low),
        ("b", Priority::Low),
        ("c", Priority::Low),
        ("d", Priority::Medium),
        ("e", Priority::Medium),
        ("f", Priority::Medium),
        ("g", Priority::High),
        ("h", Priority::High),
        ("i", Priority::High),
    ] {
        out.push(todos.add(&new_todo(title, priority)).unwrap());
    }
    out
}

fn search_empty_store_gives_empty_vec() {
    assert!(TodoList::new().search(&Query::empty()).unwrap().is_empty());
}

fn get_on_empty_store_fails() {
    let actual = TodoList::new().get(NON_EXISTENT_ID);
    assert_eq!(actual.unwrap_err(), AppError::TodoNotFound(NON_EXISTENT_ID));
}

fn count_on_empty_store_is_zero() {
    assert_eq!(TodoList::new().count_all(), 0);
}

fn delete_on_empty_store_fails() {
    let actual = TodoList::new().delete(NON_EXISTENT_ID);
    assert_eq!(actual.unwrap_err(), AppError::TodoNotFound(NON_EXISTENT_ID));
}

fn delete_by_status_on_empty_store_is_zero() {
    assert_eq!(TodoList::new().delete_by_status(&Status::Done), 0);
}

fn delete_all_on_empty_store_is_zero() {
    assert_eq!(TodoList::new().delete_all(), 0);
}

fn add_returns_newly_created_todo() {
    let mut todos = TodoList::new();
    let title = "test";
    let priority = Priority::Medium;
    let item = NewTodo {
        title: Title::new(title.to_string()),
        priority,
        deadline: OptionalDeadlineInput::none(),
    };
    let actual = todos.add(&item).unwrap();
    assert_eq!(actual.title().as_str(), title);
    assert_eq!(actual.priority(), priority);
    assert_eq!(actual.status(), Status::Backlog);
    assert!(actual.deadline().is_none());
    assert_eq!(todos.count_all(), 1);
}

fn add_fails_on_invalid_deadline() {
    let invalid_date_time = "abc";
    let item = NewTodo {
        title: Title::new("abc".to_string()),
        priority: Priority::Medium,
        deadline: OptionalDeadlineInput::some(invalid_date_time),
    };
    let actual = TodoList::new().add(&item);
    let expected = AppError::DateTimeParseError {
        input: invalid_date_time.to_string(),
        expected_format: USER_DATE_TIME_FORMAT.to_string(),
    };
    assert_eq!(actual.unwrap_err(), expected);
}

fn add_fails_on_empty_title() {
    let actual = TodoList::new().add(&new_todo("", Priority::Medium));
    assert_eq!(actual.unwrap_err(), AppError::EmptyTodoTitle);
}

fn add_fails_on_too_long_title() {
    let title = too_long_title();
    let actual = TodoList::new().add(&new_todo(&title, Priority::Medium));
    let expected = AppError::TooLongTodoTitle {
        input: title,
        expected_len: MAX_TITLE_LEN,
    };
    assert_eq!(actual.unwrap_err(), expected);
}

fn update_returns_updated_todo() {
    let mut todos = TodoList::new();
    let v1 = todos.add(&new_todo("abc", Priority::Medium)).unwrap();
    let update = UpdateTodo::builder()
        .title(Some(Title::new("abc".to_string())))
        .priority(Some(Priority::High))
        .deadline(OptionalDeadlineInput::some("2022-01-01 19"))
        .build();
    let v2 = todos.update(v1.id(), &update).unwrap();
    let item = todos.get(v1.id()).unwrap();
    assert_eq!(v2, item);
}

fn update_fails_without_changes() {
    let mut todos = TodoList::new();
    let v1 = todos.add(&new_todo("abc", Priority::Medium)).unwrap();
    let update = UpdateTodo::builder().build();
    let actual = todos.update(v1.id(), &update);
    assert_eq!(actual.unwrap_err(), AppError::UpdateHasNoChanges);
}

fn update_fails_on_empty_title() {
    let mut todos = TodoList::new();
    let v1 = todos.add(&new_todo("abc", Priority::Medium)).unwrap();
    let update = UpdateTodo::builder()
        .title(Some(Title::new("   ".to_string())))
        .build();
    let actual = todos.update(v1.id(), &update);
    assert_eq!(actual.unwrap_err(), AppError::EmptyTodoTitle);
}

fn update_fails_on_too_long_title() {
    let mut todos = TodoList::new();
    let v1 = todos.add(&new_todo("abc", Priority::Medium)).unwrap();
    let title = too_long_title();
    let update = UpdateTodo::builder()
        .title(Some(Title::new(title.clone())))
        .build();
    let actual = todos.update(v1.id(), &update);
    let expected = AppError::TooLongTodoTitle {
        input: title,
        expected_len: MAX_TITLE_LEN,
    };
    assert_eq!(actual.unwrap_err(), expected);
}

fn update_fails_on_invalid_deadline() {
    let mut todos = TodoList::new();
    let v1 = todos.add(&new_todo("abc", Priority::Medium)).unwrap();
    let invalid_date_time = "abc";
    let update = UpdateTodo::builder()
        .deadline(OptionalDeadlineInput::some(invalid_date_time))
        .build();
    let actual = todos.update(v1.id(), &update);
    let expected = AppError::DateTimeParseError {
        input: invalid_date_time.to_string(),
        expected_format: USER_DATE_TIME_FORMAT.to_string(),
    };
    assert_eq!(actual.unwrap_err(), expected);
}

fn count_by_count_all_delete_all_work() {
    let mut todos = TodoList::new();
    let items = add_todos(&mut todos);
    let count = items.len();
    assert_eq!(todos.count_all(), count);
    for p in [Priority::Low, Priority::Medium, Priority::High] {
        let query = Query::builder().priority(Some(p)).build();
        assert_eq!(todos.count_by(&query).unwrap(), 3);
    }
    assert_eq!(todos.delete_all(), count);
    assert_eq!(todos.count_all(), 0);
}

fn update_get_delete_by_status_work() {
    let the_status = Status::Done;
    let mut todos = TodoList::new();
    let items = add_todos(&mut todos);
    let count = items.len();
    for item in &items {
        let actual = todos.get(item.id()).unwrap();
        assert_eq!(actual, *item);
    }
    let search_for_done_items = Query::builder().status(Some(the_status)).build();
    assert_eq!(todos.count_by(&search_for_done_items).unwrap(), 0);
    for item in &items {
        let updated = update_status(&mut todos, item.id(), the_status);
        assert_eq!(updated.id(), item.id());
        assert_eq!(updated.title(), item.title());
        assert_eq!(updated.priority(), item.priority());
        assert_eq!(updated.status(), the_status);
        assert_eq!(updated.created_timestamp(), item.created_timestamp());
        assert_eq!(updated.deadline(), item.deadline());
    }
    assert_eq!(todos.count_by(&search_for_done_items).unwrap(), count);
    assert_eq!(todos.delete_by_status(&the_status), count);
    assert_eq!(todos.count_all(), 0);
}

fn search_returns_matching_todos() {
    let mut todos = TodoList::new();
    let items = add_todos(&mut todos);
    let highs: HashSet<_> = items.into_iter().skip(6).collect();
    let query = Query::builder().priority(Some(Priority::High)).build();
    let actual: HashSet<_> = todos.search(&query).unwrap().into_iter().collect();
    assert_eq!(actual, highs);
}

fn search_returns_todos_in_requested_order() {
    let mut todos = TodoList::new();
    let items = add_todos(&mut todos);
    let query = Query::builder()
        .limit(OptionalResultLimit::some(5))
        .sort(Some(QuerySort::Priority))
        .build();
    let search_result = todos.search(&query).unwrap();
    assert_eq!(search_result.len(), 5);
    let actual_highs: HashSet<_> = search_result[0..3].iter().collect();
    let actual_mediums: HashSet<_> = search_result[3..5].iter().collect();
    let expected_highs: HashSet<_> = items[6..9].iter().collect();
    let expected_mediums: HashSet<_> = items[3..6].iter().collect();
    assert_eq!(actual_highs, expected_highs);
    assert!(actual_mediums.is_subset(&expected_mediums));

    // the default dimension sorts by title
    let query = Query::builder().limit(OptionalResultLimit::some(5)).build();
    let actual = todos.search(&query).unwrap();
    let expected: Vec<_> = items[0..5].to_vec();
    assert_eq!(actual, expected);
}

fn search_sorts_by_status_inprogress_backlog_done() {
    let mut todos = TodoList::new();
    let items = add_todos(&mut todos);
    let statuses = [
        Status::Backlog,
        Status::InProgress,
        Status::Done,
        Status::Backlog,
        Status::InProgress,
        Status::Done,
        Status::Backlog,
        Status::InProgress,
        Status::Done,
    ];
    let mut updated = Vec::new();
    for (item, status) in items.iter().zip(statuses.iter()) {
        updated.push(update_status(&mut todos, item.id(), *status));
    }
    let query = Query::builder().sort(Some(QuerySort::Status)).build();
    let search_result = todos.search(&query).unwrap();
    assert_eq!(search_result.len(), 9);
    let actual_in_progress: HashSet<_> = search_result[0..3].iter().collect();
    let actual_backlog: HashSet<_> = search_result[3..6].iter().collect();
    let actual_done: HashSet<_> = search_result[6..9].iter().collect();
    let expected_in_progress: HashSet<_> =
        [&updated[1], &updated[4], &updated[7]].into_iter().collect();
    let expected_backlog: HashSet<_> =
        [&updated[0], &updated[3], &updated[6]].into_iter().collect();
    let expected_done: HashSet<_> =
        [&updated[2], &updated[5], &updated[8]].into_iter().collect();
    assert_eq!(actual_in_progress, expected_in_progress);
    assert_eq!(actual_backlog, expected_backlog);
    assert_eq!(actual_done, expected_done);
}

fn search_sorts_by_priority_high_medium_low() {
    let mut todos = TodoList::new();
    let items = add_todos(&mut todos);
    let priorities = [
        Priority::Medium,
        Priority::High,
        Priority::Low,
        Priority::Medium,
        Priority::High,
        Priority::Low,
        Priority::Medium,
        Priority::High,
        Priority::Low,
    ];
    let mut updated = Vec::new();
    for (item, priority) in items.iter().zip(priorities.iter()) {
        updated.push(update_priority(&mut todos, item.id(), *priority));
    }
    let query = Query::builder().sort(Some(QuerySort::Priority)).build();
    let search_result = todos.search(&query).unwrap();
    assert_eq!(search_result.len(), 9);
    let actual_highs: HashSet<_> = search_result[0..3].iter().collect();
    let actual_meds: HashSet<_> = search_result[3..6].iter().collect();
    let actual_lows: HashSet<_> = search_result[6..9].iter().collect();
    let expected_highs: HashSet<_> =
        [&updated[1], &updated[4], &updated[7]].into_iter().collect();
    let expected_meds: HashSet<_> =
        [&updated[0], &updated[3], &updated[6]].into_iter().collect();
    let expected_lows: HashSet<_> =
        [&updated[2], &updated[5], &updated[8]].into_iter().collect();
    assert_eq!(actual_highs, expected_highs);
    assert_eq!(actual_meds, expected_meds);
    assert_eq!(actual_lows, expected_lows);
}

fn search_sorts_by_deadline_ascending() {
    let mut todos = TodoList::new();
    let items = add_todos(&mut todos);
    let deadlines = [
        "2022-01-10 00",
        "2022-01-07 00",
        "2022-01-01 00",
        "2022-01-22 00",
        "2022-02-01 00",
        "2022-01-03 00",
        "2022-02-06 00",
        "2022-01-18 00",
        "2022-01-26 00",
    ];
    let mut updated = Vec::new();
    for (item, deadline) in items.iter().zip(deadlines.iter()) {
        updated.push(update_deadline(
            &mut todos,
            item.id(),
            OptionalDeadlineInput::some(deadline),
        ));
    }
    let query = Query::builder()
        .sort(Some(QuerySort::Deadline))
        .limit(OptionalResultLimit::some(5))
        .build();
    let search_result = todos.search(&query).unwrap();
    let expected = vec![
        updated[2].clone(),
        updated[5].clone(),
        updated[1].clone(),
        updated[0].clone(),
        updated[7].clone(),
    ];
    assert_eq!(search_result, expected);
}

fn search_fails_on_invalid_deadline() {
    let invalid_date_time = "abc";
    let query = Query::builder()
        .deadline(OptionalDeadlineInput::some(invalid_date_time))
        .build();
    let actual = TodoList::new().search(&query);
    let expected = AppError::DateTimeParseError {
        input: invalid_date_time.to_string(),
        expected_format: USER_DATE_TIME_FORMAT.to_string(),
    };
    assert_eq!(actual.unwrap_err(), expected);
}

fn count_by_fails_on_invalid_deadline() {
    let invalid_date_time = "abc";
    let query = Query::builder()
        .deadline(OptionalDeadlineInput::some(invalid_date_time))
        .build();
    let actual = TodoList::new().count_by(&query);
    let expected = AppError::DateTimeParseError {
        input: invalid_date_time.to_string(),
        expected_format: USER_DATE_TIME_FORMAT.to_string(),
    };
    assert_eq!(actual.unwrap_err(), expected);
}

fn delete_by_statuses_deletes_targeted_statuses() {
    let mut todos = TodoList::new();
    let items = add_todos(&mut todos);
    let statuses = [
        Status::Backlog,
        Status::InProgress,
        Status::Done,
        Status::Backlog,
        Status::InProgress,
        Status::Done,
        Status::Backlog,
        Status::InProgress,
        Status::Done,
    ];
    for (item, status) in items.iter().zip(statuses.iter()) {
        update_status(&mut todos, item.id(), *status);
    }
    let deleted_count = todos
        .delete_by_statuses(&vec![Status::Backlog, Status::Done])
        .unwrap();
    assert_eq!(deleted_count, 6);
    let query = Query::builder().status(Some(Status::InProgress)).build();
    let remaining_count = todos.count_by(&query).unwrap();
    let count_all = todos.count_all();
    assert_eq!(remaining_count, count_all);
    assert_eq!(count_all, 3);
}

fn delete_by_priorities_deletes_targeted_priorities() {
    let mut todos = TodoList::new();
    let items = add_todos(&mut todos);
    let priorities = [
        Priority::Medium,
        Priority::High,
        Priority::Low,
        Priority::Medium,
        Priority::High,
        Priority::Low,
        Priority::Medium,
        Priority::High,
        Priority::Low,
    ];
    for (item, priority) in items.iter().zip(priorities.iter()) {
        update_priority(&mut todos, item.id(), *priority);
    }
    let deleted_count = todos
        .delete_by_priorities(&vec![Priority::Medium, Priority::Low])
        .unwrap();
    assert_eq!(deleted_count, 6);
    let query = Query::builder().priority(Some(Priority::High)).build();
    let remaining_count = todos.count_by(&query).unwrap();
    let count_all = todos.count_all();
    assert_eq!(remaining_count, count_all);
    assert_eq!(count_all, 3);
}

fn delete_by_ids_deletes_targeted_ids() {
    let mut todos = TodoList::new();
    let items = add_todos(&mut todos);
    let priorities = [
        Priority::Medium,
        Priority::High,
        Priority::Low,
        Priority::Medium,
        Priority::High,
        Priority::Low,
        Priority::Medium,
        Priority::High,
        Priority::Low,
    ];
    let mut updated = Vec::new();
    for (item, priority) in items.iter().zip(priorities.iter()) {
        updated.push(update_priority(&mut todos, item.id(), *priority));
    }
    let deleted_count = todos
        .delete_by_ids(&vec![
            updated[1].id(),
            updated[3].id(),
            updated[5].id(),
            updated[7].id(),
        ])
        .unwrap();
    assert_eq!(deleted_count, 4);
    let count_all = todos.count_all();
    assert_eq!(count_all, 5);
    let query = Query::builder().limit(OptionalResultLimit::some(5)).build();
    let search_result = todos.search(&query).unwrap();
    let expected = vec![
        updated[0].clone(),
        updated[2].clone(),
        updated[4].clone(),
        updated[6].clone(),
        updated[8].clone(),
    ];
    assert_eq!(search_result, expected);
}

#[test]
fn mod_todolist_search_should_return_empty_vec_when_there_is_no_todos() {
    search_empty_store_gives_empty_vec();
}

#[test]
fn todos_todolist_search_should_return_empty_vec_when_there_is_no_todos() {
    search_empty_store_gives_empty_vec();
}

#[test]
fn mod_todolist_get_should_fail_when_there_is_no_todos() {
    get_on_empty_store_fails();
}

#[test]
fn todos_todolist_get_should_fail_when_there_is_no_todos() {
    get_on_empty_store_fails();
}

#[test]
fn mod_todolist_count_should_be_0_when_there_is_no_todos() {
    count_on_empty_store_is_zero();
}

#[test]
fn todos_todolist_count_should_be_0_when_there_is_no_todos() {
    count_on_empty_store_is_zero();
}

#[test]
fn mod_todolist_delete_should_fail_when_there_is_no_todos() {
    delete_on_empty_store_fails();
}

#[test]
fn todos_todolist_delete_should_fail_when_there_is_no_todos() {
    delete_on_empty_store_fails();
}

#[test]
fn mod_todolist_delete_by_status_should_return_0_when_there_is_no_todos() {
    delete_by_status_on_empty_store_is_zero();
}

#[test]
fn todos_todolist_delete_by_status_should_return_0_when_there_is_no_todos() {
    delete_by_status_on_empty_store_is_zero();
}

#[test]
fn mod_todolist_delete_all_should_return_0_when_there_is_no_todos() {
    delete_all_on_empty_store_is_zero();
}

#[test]
fn todos_todolist_delete_all_should_return_0_when_there_is_no_todos() {
    delete_all_on_empty_store_is_zero();
}

#[test]
fn mod_todolist_add_should_return_newly_created_todo() {
    add_returns_newly_created_todo();
}

#[test]
fn todos_todolist_add_should_return_newly_created_todo() {
    add_returns_newly_created_todo();
}

#[test]
fn mod_todolist_add_should_fail_when_deadline_is_invalid() {
    add_fails_on_invalid_deadline();
}

#[test]
fn todos_todolist_add_should_fail_when_deadline_is_invalid() {
    add_fails_on_invalid_deadline();
}

#[test]
fn mod_todolist_add_should_fail_when_title_is_empty() {
    add_fails_on_empty_title();
}

#[test]
fn todos_todolist_add_should_fail_when_title_is_empty() {
    add_fails_on_empty_title();
}

#[test]
fn mod_todolist_add_should_fail_when_title_length_is_too_long() {
    add_fails_on_too_long_title();
}

#[test]
fn todos_todolist_add_should_fail_when_title_length_is_too_long() {
    add_fails_on_too_long_title();
}

#[test]
fn mod_todolist_update_should_return_updated_todo() {
    update_returns_updated_todo();
}

#[test]
fn todos_todolist_update_should_return_updated_todo() {
    update_returns_updated_todo();
}

#[test]
fn mod_todolist_update_should_fail_when_no_change_is_provided() {
    update_fails_without_changes();
}

#[test]
fn todos_todolist_update_should_fail_when_no_change_is_provided() {
    update_fails_without_changes();
}

#[test]
fn mod_todolist_update_should_fail_when_title_update_is_empty() {
    update_fails_on_empty_title();
}

#[test]
fn todos_todolist_update_should_fail_when_title_update_is_empty() {
    update_fails_on_empty_title();
}

#[test]
fn mod_todolist_update_should_fail_when_title_update_is_too_long() {
    update_fails_on_too_long_title();
}

#[test]
fn todos_todolist_update_should_fail_when_title_update_is_too_long() {
    update_fails_on_too_long_title();
}

#[test]
fn mod_todolist_update_should_fail_when_deadline_is_invalid() {
    update_fails_on_invalid_deadline();
}

#[test]
fn todos_todolist_update_should_fail_when_deadline_is_invalid() {
    update_fails_on_invalid_deadline();
}

#[test]
fn mod_todolist_count_by_count_all_delete_all_should_all_work_as_expected() {
    count_by_count_all_delete_all_work();
}

#[test]
fn todos_todolist_count_by_count_all_delete_all_should_all_work_as_expected() {
    count_by_count_all_delete_all_work();
}

#[test]
fn mod_todolist_update_get_delete_by_status_should_all_work_as_expected() {
    update_get_delete_by_status_work();
}

#[test]
fn todos_todolist_update_get_delete_by_status_should_all_work_as_expected() {
    update_get_delete_by_status_work();
}

#[test]
fn mod_todolist_search_should_return_matching_todos() {
    search_returns_matching_todos();
}

#[test]
fn todos_todolist_search_should_return_matching_todos() {
    search_returns_matching_todos();
}

#[test]
fn mod_todolist_search_should_return_todos_in_requested_order() {
    search_returns_todos_in_requested_order();
}

#[test]
fn todos_todolist_search_should_return_todos_in_requested_order() {
    search_returns_todos_in_requested_order();
}

#[test]
fn mod_todolist_search_should_sort_todos_by_status_in_order_of_inprogress_backlog_done() {
    search_sorts_by_status_inprogress_backlog_done();
}

#[test]
fn todos_todolist_search_should_sort_todos_by_status_in_order_of_inprogress_backlog_done() {
    search_sorts_by_status_inprogress_backlog_done();
}

#[test]
fn mod_todolist_search_should_sort_todos_by_priority_in_order_of_high_medium_low() {
    search_sorts_by_priority_high_medium_low();
}

#[test]
fn todos_todolist_search_should_sort_todos_by_priority_in_order_of_high_medium_low() {
    search_sorts_by_priority_high_medium_low();
}

#[test]
fn mod_todolist_search_should_sort_todos_by_deadline_in_ascending_order() {
    search_sorts_by_deadline_ascending();
}

#[test]
fn todos_todolist_search_should_sort_todos_by_deadline_in_ascending_order() {
    search_sorts_by_deadline_ascending();
}

#[test]
fn mod_todolist_search_should_fail_when_deadline_is_invalid() {
    search_fails_on_invalid_deadline();
}

#[test]
fn todos_todolist_search_should_fail_when_deadline_is_invalid() {
    search_fails_on_invalid_deadline();
}

#[test]
fn mod_todolist_count_by_should_fail_when_deadline_is_invalid() {
    count_by_fails_on_invalid_deadline();
}

#[test]
fn todos_todolist_count_by_should_fail_when_deadline_is_invalid() {
    count_by_fails_on_invalid_deadline();
}

#[test]
fn mod_todolist_delete_by_statuses_should_delete_todos_with_specified_statuses() {
    delete_by_statuses_deletes_targeted_statuses();
}

#[test]
fn todos_todolist_delete_by_statuses_should_delete_todos_with_specified_statuses() {
    delete_by_statuses_deletes_targeted_statuses();
}

#[test]
fn mod_todolist_delete_by_priorities_should_delete_todos_with_specified_priorities() {
    delete_by_priorities_deletes_targeted_priorities();
}

#[test]
fn todos_todolist_delete_by_priorities_should_delete_todos_with_specified_priorities() {
    delete_by_priorities_deletes_targeted_priorities();
}

#[test]
fn mod_todolist_delete_by_ids_should_delete_todos_with_specified_ids() {
    delete_by_ids_deletes_targeted_ids();
}

#[test]
fn todos_todolist_delete_by_ids_should_delete_todos_with_specified_ids() {
    delete_by_ids_deletes_targeted_ids();
}
