use todo::errors::StorageError;
use todo::file_storage::FileStorage;
use todo::todo::Todo;
use todo::todos::Todos;

#[test]
fn should_read_from_storage() {
    let todo_list = FileStorage::parse_filestorage("").expect("empty contents are an empty list");
    assert!(todo_list.is_empty());
}

#[test]
fn should_write_to_storage() {
    let todo_list = Todos::new(Vec::new());
    let contents = FileStorage::render_filestorage(&todo_list);
    assert_eq!(contents, "");
}

#[test]
fn build_todo_reads_done_and_open_records() {
    let done = FileStorage::build_todo("[X] - buy milk", 0).unwrap();
    assert_eq!(done.message, "buy milk");
    assert!(done.done);
    assert_eq!(done.id, 0);

    let open = FileStorage::build_todo("[ ] - walk the dog", 5).unwrap();
    assert_eq!(open.message, "walk the dog");
    assert!(!open.done);
    assert_eq!(open.id, 5);
}

#[test]
fn build_todo_rejects_unrecognized_prefix() {
    assert!(matches!(
        FileStorage::build_todo("buy milk", 0),
        Err(StorageError::EmptyTodo)
    ));
    assert!(matches!(
        FileStorage::build_todo("[?] - buy milk", 0),
        Err(StorageError::EmptyTodo)
    ));
    assert!(matches!(
        FileStorage::build_todo("[X] - ", 0),
        Err(StorageError::EmptyTodo)
    ));
}

#[test]
fn render_writes_one_terminated_line_per_record() {
    let todos = Todos::new(vec![
        Todo::new("buy milk".to_string(), 1),
        Todo {
            message: "walk the dog".to_string(),
            done: true,
            id: 2,
        },
    ]);
    let contents = FileStorage::render_filestorage(&todos);
    assert_eq!(contents, "[ ] - buy milk\n[X] - walk the dog\n");
}

#[test]
fn write_then_read_round_trips() {
    let todos = Todos::new(vec![
        Todo::new("buy milk".to_string(), 10),
        Todo {
            message: "walk the dog".to_string(),
            done: true,
            id: 11,
        },
        Todo::new("water plants".to_string(), 12),
    ]);
    let contents = FileStorage::render_filestorage(&todos);
    let back = FileStorage::parse_filestorage(&contents).expect("a rendered list reads back");
    assert_eq!(back.len(), 3);
    for i in 0..3 {
        assert_eq!(back.get(i).message, todos.get(i).message);
        assert_eq!(back.get(i).done, todos.get(i).done);
    }
}

#[test]
fn malformed_line_fails_the_whole_read() {
    let contents = "[ ] - buy milk\nnot a record\n[X] - walk the dog\n";
    assert!(matches!(
        FileStorage::parse_filestorage(contents),
        Err(StorageError::EmptyTodo)
    ));
}

#[test]
fn dangling_final_fragment_is_dropped() {
    let contents = "[ ] - buy milk\n[X] - walk";
    let todos = FileStorage::parse_filestorage(contents).unwrap();
    assert_eq!(todos.len(), 1);
    assert_eq!(todos.get(0).message, "buy milk");
}

#[test]
fn parsed_records_take_positional_identifiers() {
    let contents = "[ ] - one\n[X] - two\n[ ] - three\n";
    let todos = FileStorage::parse_filestorage(contents).unwrap();
    assert_eq!(todos.len(), 3);
    for i in 0..3 {
        assert_eq!(todos.get(i).id, i as u128);
    }
    assert!(!todos.get(0).done);
    assert!(todos.get(1).done);
}

#[test]
fn file_storage_keeps_its_path() {
    let storage = FileStorage::new("todo.txt".to_string());
    assert_eq!(storage.path, "todo.txt");
}

#[test]
fn add_transaction_appends_one_line() {
    let contents = "[ ] - one\n";
    let todo = Todo::new("two".to_string(), 9);
    let updated = FileStorage::contents_with_added(contents, todo).unwrap();
    assert_eq!(updated, "[ ] - one\n[ ] - two\n");

    let on_empty = FileStorage::contents_with_added("", Todo::new("one".to_string(), 0)).unwrap();
    assert_eq!(on_empty, "[ ] - one\n");

    assert!(matches!(
        FileStorage::contents_with_added("junk\n", Todo::new("one".to_string(), 0)),
        Err(StorageError::EmptyTodo)
    ));
}

#[test]
fn remove_transaction_removes_by_positional_identifier() {
    let contents = "[ ] - one\n[ ] - two\n[ ] - three\n";
    let (updated, modified) = FileStorage::contents_with_removed(contents, 1).unwrap();
    assert_eq!(modified, 1);
    assert_eq!(updated, "[ ] - one\n[ ] - three\n");

    let (unchanged, modified) = FileStorage::contents_with_removed(contents, 7).unwrap();
    assert_eq!(modified, 0);
    assert_eq!(unchanged, contents);
}

#[test]
fn mark_done_transaction_flips_one_record() {
    let contents = "[ ] - one\n[ ] - two\n";
    let (updated, modified) = FileStorage::contents_with_marked_done(contents, 0).unwrap();
    assert_eq!(modified, 1);
    assert_eq!(updated, "[X] - one\n[ ] - two\n");
}

#[test]
fn clear_transaction_writes_the_empty_list() {
    assert_eq!(FileStorage::contents_cleared(), "");
}

#[test]
fn read_modify_write_keeps_other_records() {
    let contents = "[ ] - one\n[ ] - two\n[ ] - three\n";
    let mut todos = FileStorage::parse_filestorage(contents).unwrap();
    todos.mark_done(1).unwrap();
    let rewritten = FileStorage::render_filestorage(&todos);
    assert_eq!(rewritten, "[ ] - one\n[X] - two\n[ ] - three\n");
}
