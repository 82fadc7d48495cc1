//! The command dispatcher's decisions: classifying one line of input into
//! a command, and the loop policy — when the loop keeps awaiting commands,
//! when it terminates, and how a modified count is reported.
use vstd::prelude::*;

use crate::errors::TerminalError;
use crate::ids::{parse_id, parsed_uuid};

verus! {

/// What one line of input asks for.
#[derive(Debug, Clone, Copy, PartialEq, Eq, Structural)]
pub enum UserOptions {
    /// Prompt for a message and add a new todo.
    NewTodo,
    /// Remove the todo with this identifier.
    RemoveTodo(u128),
    /// Mark the todo with this identifier done.
    DoTodo(u128),
    ClearList,
    Quit,
    Help,
    ShowList,
    Unrecognized,
}

/// The outcome of classifying one line: a command, or a reference that did
/// not parse (carrying the reference text).
pub ghost enum Classified {
    Command(UserOptions),
    BadReference(Seq<char>),
}

pub open spec fn rm_prefix() -> Seq<char> {
    seq!['r', 'm', ' ']
}

pub open spec fn done_prefix() -> Seq<char> {
    seq!['d', 'o', 'n', 'e', ' ']
}

/// The classification rule. A line starting `"rm "` or `"done "` names a
/// reference, which must parse as a UUID; the exact words `y`, `help`,
/// `clear`, `quit` and `list` name their commands; anything else is
/// unrecognized.
pub open spec fn spec_classify(line: Seq<char>) -> Classified {
    if line.len() >= 3 && line.subrange(0, 3) == rm_prefix() {
        match parsed_uuid(line.skip(3)) {
            Some(id) => Classified::Command(UserOptions::RemoveTodo(id)),
            None => Classified::BadReference(line.skip(3)),
        }
    } else if line.len() >= 5 && line.subrange(0, 5) == done_prefix() {
        match parsed_uuid(line.skip(5)) {
            Some(id) => Classified::Command(UserOptions::DoTodo(id)),
            None => Classified::BadReference(line.skip(5)),
        }
    } else if line == seq!['y'] {
        Classified::Command(UserOptions::NewTodo)
    } else if line == seq!['h', 'e', 'l', 'p'] {
        Classified::Command(UserOptions::Help)
    } else if line == seq!['c', 'l', 'e', 'a', 'r'] {
        Classified::Command(UserOptions::ClearList)
    } else if line == seq!['q', 'u', 'i', 't'] {
        Classified::Command(UserOptions::Quit)
    } else if line == seq!['l', 'i', 's', 't'] {
        Classified::Command(UserOptions::ShowList)
    } else {
        Classified::Command(UserOptions::Unrecognized)
    }
}

/// Classifies one line of input. A reference that fails to parse surfaces
/// the parse failure, carrying the reference text, rather than falling
/// through to `Unrecognized`.
pub fn classify_input(line: &str) -> (r: Result<UserOptions, TerminalError>)
    ensures
        match spec_classify(line@) {
            Classified::Command(opt) => r == Ok::<UserOptions, TerminalError>(opt),
            Classified::BadReference(text) => (r matches Err(TerminalError::UuidParse(t)) && t@
                == text),
        },
{
    let n = line.unicode_len();
    if n >= 3 && line.get_char(0) == 'r' && line.get_char(1) == 'm' && line.get_char(2) == ' ' {
        proof {
            assert(line@.subrange(0, 3) =~= rm_prefix());
        }
        let rest = line.substring_char(3, n);
        proof {
            assert(rest@ =~= line@.skip(3));
        }
        return match parse_id(rest) {
            Some(id) => Ok(UserOptions::RemoveTodo(id)),
            None => Err(TerminalError::UuidParse(rest.to_owned())),
        };
    }
    proof {
        if line@.len() >= 3 && line@.subrange(0, 3) == rm_prefix() {
            assert(line@[0] == line@.subrange(0, 3)[0]);
            assert(line@[1] == line@.subrange(0, 3)[1]);
            assert(line@[2] == line@.subrange(0, 3)[2]);
            assert(false);
        }
    }
    if n >= 5 && line.get_char(0) == 'd' && line.get_char(1) == 'o' && line.get_char(2) == 'n'
        && line.get_char(3) == 'e' && line.get_char(4) == ' ' {
        proof {
            assert(line@.subrange(0, 5) =~= done_prefix());
        }
        let rest = line.substring_char(5, n);
        proof {
            assert(rest@ =~= line@.skip(5));
        }
        return match parse_id(rest) {
            Some(id) => Ok(UserOptions::DoTodo(id)),
            None => Err(TerminalError::UuidParse(rest.to_owned())),
        };
    }
    proof {
        if line@.len() >= 5 && line@.subrange(0, 5) == done_prefix() {
            assert(line@[0] == line@.subrange(0, 5)[0]);
            assert(line@[1] == line@.subrange(0, 5)[1]);
            assert(line@[2] == line@.subrange(0, 5)[2]);
            assert(line@[3] == line@.subrange(0, 5)[3]);
            assert(line@[4] == line@.subrange(0, 5)[4]);
            assert(false);
        }
    }
    if n == 1 && line.get_char(0) == 'y' {
        proof {
            assert(line@ =~= seq!['y']);
        }
        return Ok(UserOptions::NewTodo);
    }
    if n == 4 && line.get_char(0) == 'h' && line.get_char(1) == 'e' && line.get_char(2) == 'l'
        && line.get_char(3) == 'p' {
        proof {
            assert(line@ =~= seq!['h', 'e', 'l', 'p']);
        }
        return Ok(UserOptions::Help);
    }
    if n == 5 && line.get_char(0) == 'c' && line.get_char(1) == 'l' && line.get_char(2) == 'e'
        && line.get_char(3) == 'a' && line.get_char(4) == 'r' {
        proof {
            assert(line@ =~= seq!['c', 'l', 'e', 'a', 'r']);
        }
        return Ok(UserOptions::ClearList);
    }
    if n == 4 && line.get_char(0) == 'q' && line.get_char(1) == 'u' && line.get_char(2) == 'i'
        && line.get_char(3) == 't' {
        proof {
            assert(line@ =~= seq!['q', 'u', 'i', 't']);
        }
        return Ok(UserOptions::Quit);
    }
    if n == 4 && line.get_char(0) == 'l' && line.get_char(1) == 'i' && line.get_char(2) == 's'
        && line.get_char(3) == 't' {
        proof {
            assert(line@ =~= seq!['l', 'i', 's', 't']);
        }
        return Ok(UserOptions::ShowList);
    }
    Ok(UserOptions::Unrecognized)
}

/// The dispatcher's two states: reading commands, or terminated.
#[derive(Debug, Clone, Copy, PartialEq, Eq, Structural)]
pub enum LoopState {
    AwaitingCommand,
    Terminated,
}

/// The loop leaves Awaiting-Command only on an explicit quit; every other
/// command is dispatched and the loop reads the next line.
pub fn next_state(opt: &UserOptions) -> (s: LoopState)
    ensures
        s == (if (opt matches UserOptions::Quit) {
            LoopState::Terminated
        } else {
            LoopState::AwaitingCommand
        }),
{
    match opt {
        UserOptions::Quit => LoopState::Terminated,
        _ => LoopState::AwaitingCommand,
    }
}

/// After a reported failure the loop continues exactly when the failure is
/// recoverable.
pub fn next_state_after_error(e: &TerminalError) -> (s: LoopState)
    ensures
        s == (if e.spec_is_fatal() {
            LoopState::Terminated
        } else {
            LoopState::AwaitingCommand
        }),
{
    if e.is_fatal() {
        LoopState::Terminated
    } else {
        LoopState::AwaitingCommand
    }
}

/// A modified count of zero means the referenced todo was not found, which
/// is reported to the user and is not an error; any other count confirms
/// the operation.
pub fn reference_found(count: u64) -> (r: bool)
    ensures
        r == (count != 0),
{
    count != 0
}

} // verus!
