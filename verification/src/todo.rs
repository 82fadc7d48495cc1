//! The todo record: a message, a completion flag, and a 128-bit identifier.
use vstd::prelude::*;

verus! {

/// Mathematical model of a [`Todo`].
pub ghost struct TodoView {
    pub message: Seq<char>,
    pub done: bool,
    pub id: u128,
}

/// A single task record. The identifier is the 128-bit value of a UUID,
/// generated when the record is created and immutable afterwards.
#[derive(Debug)]
pub struct Todo {
    pub message: String,
    pub done: bool,
    pub id: u128,
}

/// A message is valid when it is non-empty and fits on one line of the
/// flat-file format, that is, contains no newline.
pub open spec fn valid_message(s: Seq<char>) -> bool {
    s.len() > 0 && forall|i: int| 0 <= i < s.len() ==> s[i] != '\n'
}

/// Decides message validity, so that callers can test it before creating a
/// record: the prompt re-prompts while this is false.
pub fn check_message(s: &str) -> (r: bool)
    ensures
        r == valid_message(s@),
{
    let n = s.unicode_len();
    if n == 0 {
        return false;
    }
    let mut i: usize = 0;
    while i < n
        invariant
            i <= n,
            n == s@.len(),
            forall|j: int| 0 <= j < i ==> s@[j] != '\n',
        decreases n - i,
    {
        if s.get_char(i) == '\n' {
            return false;
        }
        i = i + 1;
    }
    true
}

/// How a record is shown to the user: a done marker, the message, and the
/// identifier in hyphenated UUID form.
pub open spec fn display_of(t: TodoView) -> Seq<char> {
    (if t.done {
        seq!['[', 'X', ']', ' ', '-', ' ']
    } else {
        seq!['[', ' ', ']', ' ', '-', ' ']
    }) + t.message + " - id: "@ + crate::ids::uuid_text(t.id)
}

impl View for Todo {
    type V = TodoView;

    open spec fn view(&self) -> TodoView {
        TodoView { message: self.message@, done: self.done, id: self.id }
    }
}

impl Todo {
    /// Whether this record satisfies the entity invariant.
    pub open spec fn wf(&self) -> bool {
        valid_message(self@.message)
    }

    /// A freshly created todo starts not done.
    pub fn new(message: String, id: u128) -> (t: Todo)
        requires
            valid_message(message@),
        ensures
            t@ == (TodoView { message: message@, done: false, id: id }),
    {
        Todo { message, done: false, id }
    }

    /// A new record with a freshly generated identifier; this is how the
    /// dispatcher creates the todo for a prompted message. The identifier is
    /// random, so nothing is said of it.
    pub fn with_fresh_id(message: String) -> (t: Todo)
        requires
            valid_message(message@),
        ensures
            t@.message == message@,
            t@.done == false,
            t.wf(),
    {
        let id = crate::ids::fresh_id();
        Todo::new(message, id)
    }

    /// The line shown for this record when the list is displayed.
    pub fn display_line(&self) -> (s: String)
        ensures
            s@ == display_of(self@),
    {
        let mut s = String::new();
        if self.done {
            s.append("[X] - ");
            proof {
                reveal_strlit("[X] - ");
                assert("[X] - "@ =~= seq!['[', 'X', ']', ' ', '-', ' ']);
            }
        } else {
            s.append("[ ] - ");
            proof {
                reveal_strlit("[ ] - ");
                assert("[ ] - "@ =~= seq!['[', ' ', ']', ' ', '-', ' ']);
            }
        }
        s.append(self.message.as_str());
        s.append(" - id: ");
        let id_part = crate::ids::id_text(self.id);
        s.append(id_part.as_str());
        proof {
            assert(s@ =~= display_of(self@));
        }
        s
    }
}

impl Clone for Todo {
    fn clone(&self) -> (t: Self)
        ensures
            t@ == self@,
            t.wf() == self.wf(),
    {
        Todo { message: self.message.clone(), done: self.done, id: self.id }
    }
}

} // verus!
