//! The flat-file store's line-oriented format. One record per line: the
//! prefix `"[ ] - "` (not done) or `"[X] - "` (done) followed by the
//! message, each line terminated by a newline. Only complete lines — those
//! ending in a newline — are records; text after the last newline is a
//! dangling fragment and is dropped. A complete line with any other prefix,
//! or with nothing after the prefix, is malformed and fails the whole read.
use vstd::prelude::*;

use crate::errors::StorageError;
use crate::todo::{valid_message, Todo, TodoView};
use crate::todos::{count_id, mark_id, views_of, without_id, Todos};

verus! {

/// The six-character prefix of a record that is not done.
pub open spec fn prefix_open() -> Seq<char> {
    seq!['[', ' ', ']', ' ', '-', ' ']
}

/// The six-character prefix of a record that is done.
pub open spec fn prefix_done() -> Seq<char> {
    seq!['[', 'X', ']', ' ', '-', ' ']
}

/// The line persisting one record, without its terminating newline.
pub open spec fn line_of(t: TodoView) -> Seq<char> {
    (if t.done {
        prefix_done()
    } else {
        prefix_open()
    }) + t.message
}

/// The full file contents persisting a list, one terminated line per record.
pub open spec fn render_of(s: Seq<TodoView>) -> Seq<char>
    decreases s.len(),
{
    if s.len() == 0 {
        Seq::empty()
    } else {
        line_of(s[0]) + seq!['\n'] + render_of(s.drop_first())
    }
}

/// What one line denotes: the message and the done flag, or nothing if the
/// line is malformed — wrong prefix, or an empty message.
pub open spec fn parse_line(l: Seq<char>) -> Option<(Seq<char>, bool)> {
    if l.len() > 6 && (l.subrange(0, 6) == prefix_open() || l.subrange(0, 6) == prefix_done()) {
        Some((l.subrange(6, l.len() as int), l.subrange(0, 6) == prefix_done()))
    } else {
        None
    }
}

/// The position of the first newline, or the length if there is none.
pub open spec fn first_nl(c: Seq<char>) -> nat
    decreases c.len(),
{
    if c.len() == 0 {
        0
    } else if c[0] == '\n' {
        0
    } else {
        1 + first_nl(c.drop_first())
    }
}

/// What the file contents denote: the records of its complete lines in
/// order, or nothing as soon as one complete line is malformed.
pub open spec fn parse_records(c: Seq<char>) -> Option<Seq<(Seq<char>, bool)>>
    decreases c.len(),
{
    let k = first_nl(c);
    if k >= c.len() {
        Some(Seq::empty())
    } else {
        match parse_line(c.take(k as int)) {
            None => None,
            Some(rec) => match parse_records(c.skip(k + 1 as int)) {
                None => None,
                Some(rest) => Some(seq![rec] + rest),
            },
        }
    }
}

/// The message and done flag of each record, in order.
pub open spec fn records_of(s: Seq<TodoView>) -> Seq<(Seq<char>, bool)> {
    Seq::new(s.len(), |i: int| (s[i].message, s[i].done))
}

/// The list that a read of these records yields: messages and done flags
/// from the file, identifiers assigned by position.
pub open spec fn stored_views(recs: Seq<(Seq<char>, bool)>) -> Seq<TodoView> {
    Seq::new(recs.len(), |i: int| TodoView { message: recs[i].0, done: recs[i].1, id: i as u128 })
}

/// The flat-file store: the whole list is re-read and rewritten around
/// every operation, so the file always holds a complete list.
#[derive(Debug)]
pub struct FileStorage {
    pub path: String,
}

impl FileStorage {
    pub fn new(path: String) -> (r: FileStorage)
        ensures
            r.path@ == path@,
    {
        FileStorage { path }
    }

    /// Reads one record off one line. The record takes the identifier that
    /// the caller assigns, since the file does not persist identifiers.
    pub fn build_todo(line: &str, id: u128) -> (r: Result<Todo, StorageError>)
        ensures
            match r {
                Ok(t) => parse_line(line@) matches Some(rec) && t@.message == rec.0 && t@.done
                    == rec.1 && t@.id == id,
                Err(e) => e == StorageError::EmptyTodo && parse_line(line@) is None,
            },
    {
        let n = line.unicode_len();
        if n <= 6 {
            return Err(StorageError::EmptyTodo);
        }
        let c0 = line.get_char(0);
        let c1 = line.get_char(1);
        let c2 = line.get_char(2);
        let c3 = line.get_char(3);
        let c4 = line.get_char(4);
        let c5 = line.get_char(5);
        let prefix_ok = c0 == '[' && (c1 == ' ' || c1 == 'X') && c2 == ']' && c3 == ' ' && c4
            == '-' && c5 == ' ';
        if !prefix_ok {
            proof {
                assert(line@.subrange(0, 6) != prefix_open() && line@.subrange(0, 6)
                    != prefix_done()) by {
                    if line@.subrange(0, 6) == prefix_open() {
                        assert(line@[1] == prefix_open()[1]);
                    }
                    if line@.subrange(0, 6) == prefix_done() {
                        assert(line@[1] == prefix_done()[1]);
                    }
                }
            }
            return Err(StorageError::EmptyTodo);
        }
        let done = c1 == 'X';
        proof {
            if done {
                assert(line@.subrange(0, 6) =~= prefix_done());
            } else {
                assert(line@.subrange(0, 6) =~= prefix_open());
            }
        }
        let message = line.substring_char(6, n).to_owned();
        Ok(Todo { message, done, id })
    }

    /// Reads a whole list off the file contents. Identifiers are assigned
    /// by position; the flat-file store addresses records by position.
    pub fn parse_filestorage(content: &str) -> (r: Result<Todos, StorageError>)
        ensures
            match r {
                Ok(todos) => parse_records(content@) == Some(records_of(todos@)) && todos.wf()
                    && (forall|j: int|
                    0 <= j < todos@.len() ==> (#[trigger] todos@[j]).id == j as u128),
                Err(e) => e == StorageError::EmptyTodo && parse_records(content@) is None,
            },
    {
        let ghost c = content@;
        let n = content.unicode_len();
        let mut pos: usize = 0;
        let mut out: Vec<Todo> = Vec::new();
        proof {
            assert(c.skip(0) =~= c);
            if parse_records(c) is Some {
                assert(records_of(views_of(out@)) + parse_records(c)->Some_0 =~= parse_records(
                    c,
                )->Some_0);
            }
        }
        loop
            invariant
                pos <= n,
                n == c.len(),
                content@ == c,
                out@.len() <= pos,
                forall|j: int| 0 <= j < out@.len() ==> (#[trigger] out@[j])@.id == j as u128,
                forall|j: int| 0 <= j < out@.len() ==> (#[trigger] out@[j]).wf(),
                parse_records(c) == (match parse_records(c.skip(pos as int)) {
                    Some(rest) => Some(records_of(views_of(out@)) + rest),
                    None => None::<Seq<(Seq<char>, bool)>>,
                }),
            decreases n - pos,
        {
            let ghost suffix = c.skip(pos as int);
            let mut j: usize = pos;
            while j < n && content.get_char(j) != '\n'
                invariant
                    pos <= j <= n,
                    n == c.len(),
                    content@ == c,
                    forall|m: int| pos <= m < j ==> c[m] != '\n',
                decreases n - j,
            {
                j = j + 1;
            }
            proof {
                lemma_first_nl_at(suffix, (j - pos) as nat);
                if j < n {
                    assert(suffix[j - pos] == c[j as int]);
                }
            }
            if j == n {
                // No newline left: what remains is a dangling fragment (or
                // nothing) and holds no record.
                proof {
                    assert(first_nl(suffix) >= suffix.len());
                    assert(parse_records(c) == Some(records_of(views_of(out@))));
                }
                return Ok(Todos::new(out));
            }
            let line = content.substring_char(pos, j);
            proof {
                assert(line@ =~= suffix.take((j - pos) as int));
            }
            let id_here: u128 = out.len() as u128;
            match Self::build_todo(line, id_here) {
                Err(e) => {
                    proof {
                        assert(parse_records(suffix) is None);
                    }
                    return Err(e);
                },
                Ok(t) => {
                    let ghost prev = out@;
                    proof {
                        assert(valid_message(t@.message)) by {
                            let rec = parse_line(line@)->Some_0;
                            assert(t@.message == rec.0);
                            assert(rec.0.len() > 0);
                            assert(forall|m: int|
                                0 <= m < rec.0.len() ==> rec.0[m] == line@[m + 6] && line@[m + 6]
                                    != '\n');
                        }
                    }
                    out.push(t);
                    proof {
                        assert(suffix.skip((j - pos) + 1) =~= c.skip(j + 1));
                        assert(records_of(views_of(out@)) =~= records_of(views_of(prev)) + seq![
                            (t@.message, t@.done),
                        ]);
                        if parse_records(c.skip(j + 1)) is Some {
                            let rest = parse_records(c.skip(j + 1))->Some_0;
                            assert(records_of(views_of(prev)) + (seq![(t@.message, t@.done)]
                                + rest) =~= records_of(views_of(out@)) + rest);
                        }
                    }
                    pos = j + 1;
                },
            }
        }
    }

    /// The line persisting one record, without its newline.
    pub fn render_line(todo: &Todo) -> (r: String)
        ensures
            r@ == line_of(todo@),
    {
        let mut s = String::new();
        if todo.done {
            s.append("[X] - ");
            proof {
                reveal_strlit("[X] - ");
                assert("[X] - "@ =~= prefix_done());
            }
        } else {
            s.append("[ ] - ");
            proof {
                reveal_strlit("[ ] - ");
                assert("[ ] - "@ =~= prefix_open());
            }
        }
        s.append(todo.message.as_str());
        s
    }

    /// Writes a whole list out as file contents, one terminated line per
    /// record.
    pub fn render_filestorage(list: &Todos) -> (r: String)
        ensures
            r@ == render_of(list@),
    {
        let mut s = String::new();
        let mut i: usize = 0;
        let n = list.len();
        while i < n
            invariant
                i <= n,
                n == list@.len(),
                s@ == render_of(list@.take(i as int)),
            decreases n - i,
        {
            let line = Self::render_line(list.get(i));
            s.append(line.as_str());
            s.append("\n");
            proof {
                reveal_strlit("\n");
                assert("\n"@ =~= seq!['\n']);
                lemma_render_snoc(list@.take(i as int), list@[i as int]);
                assert(list@.take(i + 1).drop_last() =~= list@.take(i as int));
                assert(list@.take(i + 1) =~= list@.take(i as int).push(list@[i as int]));
            }
            i = i + 1;
        }
        proof {
            assert(list@.take(n as int) =~= list@);
        }
        s
    }
}

/// If the first `k` characters are not newlines and the sequence ends or
/// holds a newline at `k`, then `k` is the first newline position.
proof fn lemma_first_nl_at(c: Seq<char>, k: nat)
    requires
        k <= c.len(),
        forall|m: int| 0 <= m < k ==> c[m] != '\n',
        k < c.len() ==> c[k as int] == '\n',
    ensures
        first_nl(c) == k,
    decreases c.len(),
{
    if c.len() > 0 && k > 0 {
        assert(forall|m: int| 0 <= m < k - 1 ==> c.drop_first()[m] == c[m + 1]);
        if k < c.len() {
            assert(c.drop_first()[k - 1] == c[k as int]);
        }
        lemma_first_nl_at(c.drop_first(), (k - 1) as nat);
    }
}

/// Removing an identifier keeps a subset of the records, so message
/// validity is preserved.
proof fn lemma_without_id_valid(s: Seq<TodoView>, id: u128)
    requires
        forall|i: int| 0 <= i < s.len() ==> valid_message((#[trigger] s[i]).message),
    ensures
        forall|i: int|
            0 <= i < without_id(s, id).len() ==> valid_message(
                (#[trigger] without_id(s, id)[i]).message,
            ),
    decreases s.len(),
{
    if s.len() > 0 {
        assert(forall|i: int|
            0 <= i < s.drop_last().len() ==> valid_message(
                (#[trigger] s.drop_last()[i]).message,
            ));
        lemma_without_id_valid(s.drop_last(), id);
        let w = without_id(s, id);
        let rest = without_id(s.drop_last(), id);
        assert(valid_message(s[s.len() - 1].message));
        assert forall|i: int| 0 <= i < w.len() implies valid_message(
            (#[trigger] w[i]).message,
        ) by {
            if s.last().id == id || i < rest.len() {
                assert(w[i] == rest[i]);
            } else {
                assert(w[i] == s.last());
            }
        }
    }
}

impl FileStorage {
    /// One add transaction on the file contents: read the whole list, append
    /// the record, rewrite the whole list. The new contents parse back to
    /// exactly the old records plus the new one, so the file keeps holding a
    /// complete, valid list.
    pub fn contents_with_added(contents: &str, todo: Todo) -> (r: Result<String, StorageError>)
        requires
            todo.wf(),
        ensures
            match r {
                Ok(out) => parse_records(contents@) matches Some(recs) && parse_records(out@)
                    == Some(recs.push((todo@.message, todo@.done))),
                Err(e) => e == StorageError::EmptyTodo && parse_records(contents@) is None,
            },
    {
        let mut todos = match Self::parse_filestorage(contents) {
            Ok(todos) => todos,
            Err(e) => {
                return Err(e);
            },
        };
        let ghost recs = parse_records(contents@)->Some_0;
        let ghost new_view = todo@;
        todos.push_new_todo(todo);
        proof {
            assert(forall|i: int|
                0 <= i < todos@.len() ==> valid_message((#[trigger] todos@[i]).message));
            lemma_write_read_round_trip(todos@);
            assert(records_of(todos@) =~= recs.push((new_view.message, new_view.done)));
        }
        Ok(Self::render_filestorage(&todos))
    }

    /// One remove transaction on the file contents, addressed by the
    /// positional identifier a read assigns: every matching record leaves,
    /// the count says how many matched, and the rewritten contents parse
    /// back to exactly the remaining records.
    pub fn contents_with_removed(contents: &str, id: u128) -> (r: Result<
        (String, u64),
        StorageError,
    >)
        ensures
            match r {
                Ok(out) => parse_records(contents@) matches Some(recs) && parse_records(out.0@)
                    == Some(records_of(without_id(stored_views(recs), id))) && out.1 == count_id(
                    stored_views(recs),
                    id,
                ),
                Err(e) => e == StorageError::EmptyTodo && parse_records(contents@) is None,
            },
    {
        let mut todos = match Self::parse_filestorage(contents) {
            Ok(todos) => todos,
            Err(e) => {
                return Err(e);
            },
        };
        let ghost recs = parse_records(contents@)->Some_0;
        proof {
            assert(todos@ =~= stored_views(recs));
        }
        let count = todos.remove_by_id(id);
        proof {
            lemma_without_id_valid(stored_views(recs), id);
            lemma_write_read_round_trip(todos@);
        }
        Ok((Self::render_filestorage(&todos), count))
    }

    /// One mark-done transaction on the file contents, addressed by the
    /// positional identifier a read assigns: `done` is set on every matching
    /// record, the count says how many matched, and the rewritten contents
    /// parse back to exactly the updated records.
    pub fn contents_with_marked_done(contents: &str, id: u128) -> (r: Result<
        (String, u64),
        StorageError,
    >)
        ensures
            match r {
                Ok(out) => parse_records(contents@) matches Some(recs) && parse_records(out.0@)
                    == Some(records_of(mark_id(stored_views(recs), id))) && out.1 == count_id(
                    stored_views(recs),
                    id,
                ),
                Err(e) => e == StorageError::EmptyTodo && parse_records(contents@) is None,
            },
    {
        let mut todos = match Self::parse_filestorage(contents) {
            Ok(todos) => todos,
            Err(e) => {
                return Err(e);
            },
        };
        let ghost recs = parse_records(contents@)->Some_0;
        proof {
            assert(todos@ =~= stored_views(recs));
        }
        let count = todos.mark_done_by_id(id);
        proof {
            assert(forall|i: int|
                0 <= i < todos@.len() ==> valid_message((#[trigger] todos@[i]).message));
            lemma_write_read_round_trip(todos@);
        }
        Ok((Self::render_filestorage(&todos), count))
    }

    /// The clear transaction writes the empty list, whatever the contents
    /// held before.
    pub fn contents_cleared() -> (r: String)
        ensures
            r@ == render_of(Seq::<TodoView>::empty()),
            parse_records(r@) == Some(Seq::<(Seq<char>, bool)>::empty()),
    {
        proof {
            lemma_write_read_round_trip(Seq::<TodoView>::empty());
            assert(records_of(Seq::<TodoView>::empty()) =~= Seq::<(Seq<char>, bool)>::empty());
        }
        String::new()
    }
}

/// Law: writing a list to the flat-file format and reading it back
/// reproduces its records — order, message and done-flag — exactly.
/// Identifiers are not persisted by this format; a re-read list carries
/// positional identifiers.
pub proof fn lemma_write_read_round_trip(s: Seq<TodoView>)
    requires
        forall|i: int| 0 <= i < s.len() ==> valid_message((#[trigger] s[i]).message),
    ensures
        parse_records(render_of(s)) == Some(records_of(s)),
    decreases s.len(),
{
    let c = render_of(s);
    if s.len() == 0 {
        assert(c.len() == 0);
        assert(records_of(s) =~= Seq::<(Seq<char>, bool)>::empty());
    } else {
        let line = line_of(s[0]);
        let rest = render_of(s.drop_first());
        assert(valid_message(s[0].message));
        assert(line.len() > 6);
        assert(forall|m: int| 0 <= m < line.len() ==> #[trigger] line[m] != '\n') by {
            assert(forall|m: int|
                0 <= m < s[0].message.len() ==> #[trigger] s[0].message[m] != '\n');
            assert(forall|m: int| 6 <= m < line.len() ==> line[m] == s[0].message[m - 6]);
        }
        assert(c == line + seq!['\n'] + rest);
        assert(forall|m: int| 0 <= m < line.len() ==> #[trigger] c[m] == line[m]);
        assert(c[line.len() as int] == '\n');
        lemma_first_nl_at(c, line.len());
        assert(first_nl(c) == line.len() && first_nl(c) < c.len());
        assert(c.take(line.len() as int) =~= line);
        assert(c.skip(line.len() + 1 as int) =~= rest);
        assert(prefix_open() != prefix_done()) by {
            assert(prefix_open()[1] != prefix_done()[1]);
        }
        assert(parse_line(line) == Some((s[0].message, s[0].done))) by {
            if s[0].done {
                assert(line.subrange(0, 6) =~= prefix_done());
            } else {
                assert(line.subrange(0, 6) =~= prefix_open());
            }
            assert(line.subrange(6, line.len() as int) =~= s[0].message);
        }
        lemma_write_read_round_trip(s.drop_first());
        assert(seq![(s[0].message, s[0].done)] + records_of(s.drop_first()) =~= records_of(s));
    }
}

/// Appending one record to a list appends its line to the rendering.
proof fn lemma_render_snoc(s: Seq<TodoView>, t: TodoView)
    ensures
        render_of(s.push(t)) == render_of(s) + line_of(t) + seq!['\n'],
    decreases s.len(),
{
    if s.len() == 0 {
        assert(s.push(t)[0] == t);
        assert(s.push(t).drop_first() =~= Seq::<TodoView>::empty());
        assert(render_of(Seq::<TodoView>::empty()) == Seq::<char>::empty());
        assert(render_of(s.push(t)) =~= render_of(s) + line_of(t) + seq!['\n']);
    } else {
        assert(s.push(t)[0] == s[0]);
        assert(s.push(t).drop_first() =~= s.drop_first().push(t));
        lemma_render_snoc(s.drop_first(), t);
        assert(render_of(s.push(t)) == line_of(s[0]) + seq!['\n'] + render_of(
            s.drop_first().push(t),
        ));
        assert(render_of(s) == line_of(s[0]) + seq!['\n'] + render_of(s.drop_first()));
        assert(render_of(s.push(t)) == line_of(s[0]) + seq!['\n'] + (render_of(s.drop_first())
            + line_of(t) + seq!['\n']));
        assert(render_of(s.push(t)) =~= render_of(s) + line_of(t) + seq!['\n']);
    }
}

} // verus!
