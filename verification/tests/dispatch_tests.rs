use todo::dispatch::{classify_input, next_state, next_state_after_error, reference_found};
use todo::dispatch::{LoopState, UserOptions};
use todo::errors::{StorageError, TerminalError};
use todo::ids::id_text;

const SAMPLE: u128 = 0x936da01f9abd4d9d80c702af85c822a8;
const SAMPLE_TEXT: &str = "936da01f-9abd-4d9d-80c7-02af85c822a8";

#[test]
fn classifies_exact_words() {
    assert_eq!(classify_input("y").unwrap(), UserOptions::NewTodo);
    assert_eq!(classify_input("help").unwrap(), UserOptions::Help);
    assert_eq!(classify_input("clear").unwrap(), UserOptions::ClearList);
    assert_eq!(classify_input("quit").unwrap(), UserOptions::Quit);
    assert_eq!(classify_input("list").unwrap(), UserOptions::ShowList);
}

#[test]
fn classifies_anything_else_as_unrecognized() {
    assert_eq!(classify_input("").unwrap(), UserOptions::Unrecognized);
    assert_eq!(classify_input("yes").unwrap(), UserOptions::Unrecognized);
    assert_eq!(classify_input("HELP").unwrap(), UserOptions::Unrecognized);
    assert_eq!(classify_input("done").unwrap(), UserOptions::Unrecognized);
    assert_eq!(classify_input("rm").unwrap(), UserOptions::Unrecognized);
    assert_eq!(classify_input("remove 3").unwrap(), UserOptions::Unrecognized);
}

#[test]
fn classifies_remove_with_a_valid_reference() {
    let line = format!("rm {}", SAMPLE_TEXT);
    assert_eq!(
        classify_input(&line).unwrap(),
        UserOptions::RemoveTodo(SAMPLE)
    );
}

#[test]
fn classifies_done_with_a_valid_reference() {
    let line = format!("done {}", SAMPLE_TEXT);
    assert_eq!(classify_input(&line).unwrap(), UserOptions::DoTodo(SAMPLE));
}

#[test]
fn simple_hex_reference_is_accepted_too() {
    let line = "rm 936da01f9abd4d9d80c702af85c822a8";
    assert_eq!(
        classify_input(line).unwrap(),
        UserOptions::RemoveTodo(SAMPLE)
    );
}

#[test]
fn bad_reference_is_a_parse_failure_not_unrecognized() {
    match classify_input("rm not-a-uuid") {
        Err(TerminalError::UuidParse(text)) => assert_eq!(text, "not-a-uuid"),
        other => panic!("expected a parse failure, got {:?}", other),
    }
    match classify_input("done ") {
        Err(TerminalError::UuidParse(text)) => assert_eq!(text, ""),
        other => panic!("expected a parse failure, got {:?}", other),
    }
}

#[test]
fn id_text_writes_the_hyphenated_form() {
    assert_eq!(id_text(SAMPLE), SAMPLE_TEXT);
    assert_eq!(id_text(0), "00000000-0000-0000-0000-000000000000");
    assert_eq!(id_text(u128::MAX), "ffffffff-ffff-ffff-ffff-ffffffffffff");
}

#[test]
fn displayed_identifier_parses_back() {
    let id = uuid::Uuid::new_v4().as_u128();
    let line = format!("rm {}", id_text(id));
    assert_eq!(classify_input(&line).unwrap(), UserOptions::RemoveTodo(id));
}

#[test]
fn display_line_shows_marker_message_and_identifier() {
    let t = todo::todo::Todo {
        message: "buy milk".to_string(),
        done: true,
        id: SAMPLE,
    };
    assert_eq!(
        t.display_line(),
        format!("[X] - buy milk - id: {}", SAMPLE_TEXT)
    );
    let open = todo::todo::Todo::new("walk the dog".to_string(), 0);
    assert_eq!(
        open.display_line(),
        "[ ] - walk the dog - id: 00000000-0000-0000-0000-000000000000"
    );
}

#[test]
fn stream_and_storage_failures_are_fatal() {
    assert!(TerminalError::Stdin.is_fatal());
    assert!(TerminalError::Stdout.is_fatal());
    assert!(TerminalError::StorageError(StorageError::Read).is_fatal());
}

#[test]
fn parse_and_range_failures_are_recoverable() {
    assert!(!TerminalError::UuidParse("oops".to_string()).is_fatal());
    assert!(!TerminalError::IndexError.is_fatal());
}

#[test]
fn quit_is_the_only_way_out_of_the_loop() {
    assert_eq!(next_state(&UserOptions::Quit), LoopState::Terminated);
    assert_eq!(next_state(&UserOptions::NewTodo), LoopState::AwaitingCommand);
    assert_eq!(next_state(&UserOptions::Help), LoopState::AwaitingCommand);
    assert_eq!(
        next_state(&UserOptions::Unrecognized),
        LoopState::AwaitingCommand
    );
    assert_eq!(
        next_state(&UserOptions::RemoveTodo(1)),
        LoopState::AwaitingCommand
    );
}

#[test]
fn fatal_errors_terminate_the_loop() {
    assert_eq!(
        next_state_after_error(&TerminalError::Stdin),
        LoopState::Terminated
    );
    assert_eq!(
        next_state_after_error(&TerminalError::StorageError(StorageError::Write)),
        LoopState::Terminated
    );
    assert_eq!(
        next_state_after_error(&TerminalError::IndexError),
        LoopState::AwaitingCommand
    );
    assert_eq!(
        next_state_after_error(&TerminalError::UuidParse("?".to_string())),
        LoopState::AwaitingCommand
    );
}

#[test]
fn zero_modified_count_means_not_found() {
    assert!(!reference_found(0));
    assert!(reference_found(1));
    assert!(reference_found(2));
}

#[test]
fn errors_describe_themselves() {
    assert_eq!(StorageError::Read.describe(), "Error when reading file");
    assert_eq!(StorageError::Write.describe(), "Error when writing in file");
    assert_eq!(
        StorageError::EmptyTodo.describe(),
        "Todo file storage is empty."
    );
    assert_eq!(TerminalError::Stdin.describe(), "Input error");
    assert_eq!(TerminalError::Stdout.describe(), "Output error");
    assert_eq!(
        TerminalError::StorageError(StorageError::Read).describe(),
        "Error in storage: Error when reading file"
    );
    assert_eq!(
        TerminalError::UuidParse("zzz".to_string()).describe(),
        "Error when parsing the uuid: zzz"
    );
    assert_eq!(
        TerminalError::from(StorageError::Write).describe(),
        "Error in storage: Error when writing in file"
    );
}
