//! The ordered todo list and its operations: positional operations used by
//! the flat-file store, and identifier-addressed operations with the
//! modified-count convention of the relational store.
use vstd::prelude::*;

use crate::errors::TerminalError;
use crate::todo::{valid_message, Todo, TodoView};

verus! {

/// The models of a sequence of records.
pub open spec fn views_of(s: Seq<Todo>) -> Seq<TodoView> {
    Seq::new(s.len(), |i: int| s[i]@)
}

/// The sequence with every record of the given identifier removed, in the
/// order of the remaining records.
pub open spec fn without_id(s: Seq<TodoView>, id: u128) -> Seq<TodoView>
    decreases s.len(),
{
    if s.len() == 0 {
        Seq::empty()
    } else {
        let rest = without_id(s.drop_last(), id);
        if s.last().id == id {
            rest
        } else {
            rest.push(s.last())
        }
    }
}

/// How many records carry the given identifier.
pub open spec fn count_id(s: Seq<TodoView>, id: u128) -> nat
    decreases s.len(),
{
    if s.len() == 0 {
        0
    } else {
        count_id(s.drop_last(), id) + if s.last().id == id {
            1nat
        } else {
            0nat
        }
    }
}

/// The sequence with `done` set on every record of the given identifier and
/// every other record unchanged.
pub open spec fn mark_id(s: Seq<TodoView>, id: u128) -> Seq<TodoView> {
    Seq::new(
        s.len(),
        |i: int|
            if s[i].id == id {
                TodoView { done: true, ..s[i] }
            } else {
                s[i]
            },
    )
}

/// An ordered collection of todo records, insertion order preserved.
#[derive(Debug)]
pub struct Todos {
    pub list: Vec<Todo>,
}

impl View for Todos {
    type V = Seq<TodoView>;

    open spec fn view(&self) -> Seq<TodoView> {
        views_of(self.list@)
    }
}

impl Todos {
    /// Every record satisfies the entity invariant: a non-empty,
    /// single-line message.
    pub open spec fn wf(&self) -> bool {
        forall|i: int| 0 <= i < self@.len() ==> valid_message((#[trigger] self@[i]).message)
    }

    pub fn new(list: Vec<Todo>) -> (r: Todos)
        ensures
            r@ == views_of(list@),
            r.list@ == list@,
    {
        Todos { list }
    }

    pub fn len(&self) -> (n: usize)
        ensures
            n == self@.len(),
    {
        self.list.len()
    }

    pub fn is_empty(&self) -> (b: bool)
        ensures
            b == (self@.len() == 0),
    {
        self.list.is_empty()
    }

    pub fn get(&self, index: usize) -> (t: &Todo)
        requires
            index < self@.len(),
        ensures
            t@ == self@[index as int],
    {
        &self.list[index]
    }

    /// Appends a record; insertion order is preserved.
    pub fn push(&mut self, todo: Todo)
        ensures
            final(self)@ == old(self)@.push(todo@),
    {
        self.list.push(todo);
        proof {
            assert(self@ =~= old(self)@.push(todo@));
        }
    }

    /// Removes the record at a position known to be in range.
    pub fn remove(&mut self, index: usize)
        requires
            index < old(self)@.len(),
        ensures
            final(self)@ == old(self)@.remove(index as int),
    {
        self.list.remove(index);
        proof {
            assert(self@ =~= old(self)@.remove(index as int));
        }
    }

    /// Appends a freshly created record to the list.
    pub fn push_new_todo(&mut self, todo: Todo)
        ensures
            final(self)@ == old(self)@.push(todo@),
    {
        self.push(todo);
    }

    /// Removes the record at the given position. A position at or past the
    /// list length is out of range and leaves the list unchanged.
    pub fn remove_todo(&mut self, index: usize) -> (r: Result<(), TerminalError>)
        ensures
            index < old(self)@.len() ==> r is Ok && final(self)@ == old(self)@.remove(
                index as int,
            ),
            index >= old(self)@.len() ==> (r matches Err(TerminalError::IndexError))
                && final(self)@ == old(self)@,
    {
        if index >= self.list.len() {
            return Err(TerminalError::IndexError);
        }
        self.remove(index);
        Ok(())
    }

    /// Sets `done` on the record at the given position; never unsets it. A
    /// position at or past the list length is out of range and leaves the
    /// list unchanged.
    pub fn mark_done(&mut self, index: usize) -> (r: Result<(), TerminalError>)
        ensures
            index < old(self)@.len() ==> r is Ok && final(self)@ == old(self)@.update(
                index as int,
                TodoView { done: true, ..old(self)@[index as int] },
            ),
            index >= old(self)@.len() ==> (r matches Err(TerminalError::IndexError))
                && final(self)@ == old(self)@,
    {
        if index >= self.list.len() {
            return Err(TerminalError::IndexError);
        }
        let t = self.list.remove(index);
        let done_todo = Todo { message: t.message, done: true, id: t.id };
        self.list.insert(index, done_todo);
        proof {
            assert(self@ =~= old(self)@.update(
                index as int,
                TodoView { done: true, ..old(self)@[index as int] },
            ));
        }
        Ok(())
    }

    /// Returns a copy of all records in persisted order.
    pub fn get_list(&self) -> (r: Vec<Todo>)
        ensures
            views_of(r@) == self@,
    {
        let mut out: Vec<Todo> = Vec::new();
        let mut i: usize = 0;
        while i < self.list.len()
            invariant
                i <= self.list@.len(),
                out@.len() == i,
                forall|j: int| 0 <= j < i ==> #[trigger] out@[j]@ == self.list@[j]@,
            decreases self.list@.len() - i,
        {
            let t = self.list[i].clone();
            out.push(t);
            i = i + 1;
        }
        proof {
            assert(views_of(out@) =~= self@);
        }
        out
    }

    /// Removes every record.
    pub fn clear(&mut self)
        ensures
            final(self)@ == Seq::<TodoView>::empty(),
    {
        self.list.clear();
        proof {
            assert(self@ =~= Seq::<TodoView>::empty());
        }
    }

    /// Removes every record carrying the given identifier and returns how
    /// many were removed; an absent identifier removes nothing and returns
    /// zero.
    pub fn remove_by_id(&mut self, id: u128) -> (count: u64)
        ensures
            final(self)@ == without_id(old(self)@, id),
            count == count_id(old(self)@, id),
    {
        let ghost all = self@;
        let mut kept: Vec<Todo> = Vec::new();
        let mut count: u64 = 0;
        let mut i: usize = 0;
        while i < self.list.len()
            invariant
                i <= self.list@.len(),
                self@ == all,
                views_of(kept@) =~= without_id(all.take(i as int), id),
                count == count_id(all.take(i as int), id),
            decreases self.list@.len() - i,
        {
            proof {
                assert(all.take(i + 1).drop_last() =~= all.take(i as int));
                assert(all.take(i + 1).last() == all[i as int]);
                lemma_count_id_bound(all.take(i + 1), id);
            }
            if self.list[i].id == id {
                count = count + 1;
            } else {
                kept.push(self.list[i].clone());
            }
            i = i + 1;
        }
        proof {
            assert(all.take(self.list@.len() as int) =~= all);
        }
        self.list = kept;
        count
    }

    /// Sets `done` on every record carrying the given identifier and returns
    /// how many were matched. A record already done is matched, and counted,
    /// again: marking is idempotent on the list and on the count.
    pub fn mark_done_by_id(&mut self, id: u128) -> (count: u64)
        ensures
            final(self)@ == mark_id(old(self)@, id),
            count == count_id(old(self)@, id),
    {
        let ghost all = self@;
        let mut updated: Vec<Todo> = Vec::new();
        let mut count: u64 = 0;
        let mut i: usize = 0;
        while i < self.list.len()
            invariant
                i <= self.list@.len(),
                self@ == all,
                updated@.len() == i,
                forall|j: int| 0 <= j < i ==> #[trigger] updated@[j]@ == mark_id(all, id)[j],
                count == count_id(all.take(i as int), id),
            decreases self.list@.len() - i,
        {
            proof {
                assert(all.take(i + 1).drop_last() =~= all.take(i as int));
                assert(all.take(i + 1).last() == all[i as int]);
                lemma_count_id_bound(all.take(i + 1), id);
            }
            let t = &self.list[i];
            if t.id == id {
                count = count + 1;
                updated.push(Todo { message: t.message.clone(), done: true, id: t.id });
            } else {
                updated.push(t.clone());
            }
            i = i + 1;
        }
        self.list = updated;
        proof {
            assert(all.take(all.len() as int) =~= all);
            assert(self@ =~= mark_id(all, id));
        }
        count
    }
}

/// No identifier occurs more often than the sequence is long.
proof fn lemma_count_id_bound(s: Seq<TodoView>, id: u128)
    ensures
        count_id(s, id) <= s.len(),
    decreases s.len(),
{
    if s.len() > 0 {
        lemma_count_id_bound(s.drop_last(), id);
    }
}

/// No two records of the sequence share an identifier.
pub open spec fn unique_ids(s: Seq<TodoView>) -> bool {
    forall|i: int, j: int| 0 <= i < j < s.len() ==> s[i].id != s[j].id
}

/// An identifier that no record carries is counted zero times.
pub proof fn lemma_count_id_absent(s: Seq<TodoView>, id: u128)
    requires
        forall|j: int| 0 <= j < s.len() ==> (#[trigger] s[j]).id != id,
    ensures
        count_id(s, id) == 0,
    decreases s.len(),
{
    if s.len() > 0 {
        assert(forall|j: int|
            0 <= j < s.drop_last().len() ==> (#[trigger] s.drop_last()[j]).id != id);
        lemma_count_id_absent(s.drop_last(), id);
    }
}

/// Removing an identifier that no record carries leaves the sequence
/// unchanged.
pub proof fn lemma_without_id_absent(s: Seq<TodoView>, id: u128)
    requires
        forall|j: int| 0 <= j < s.len() ==> (#[trigger] s[j]).id != id,
    ensures
        without_id(s, id) == s,
    decreases s.len(),
{
    if s.len() > 0 {
        assert(forall|j: int|
            0 <= j < s.drop_last().len() ==> (#[trigger] s.drop_last()[j]).id != id);
        lemma_without_id_absent(s.drop_last(), id);
        assert(without_id(s, id) =~= s);
    }
}

/// Law: removing a present identifier from a list of pairwise distinct
/// identifiers removes exactly that record — the length shrinks by one, the
/// modified count is one, and every other record keeps its place and value.
/// Removing an absent identifier removes nothing, counts zero, and leaves
/// the list unchanged.
pub proof fn lemma_remove_by_id_exact(s: Seq<TodoView>, i: int, id: u128)
    requires
        unique_ids(s),
        0 <= i < s.len(),
        s[i].id == id,
    ensures
        count_id(s, id) == 1,
        without_id(s, id) == s.remove(i),
    decreases s.len(),
{
    if i == s.len() - 1 {
        assert(forall|j: int|
            0 <= j < s.drop_last().len() ==> (#[trigger] s.drop_last()[j]).id != id);
        lemma_count_id_absent(s.drop_last(), id);
        lemma_without_id_absent(s.drop_last(), id);
        assert(without_id(s, id) =~= s.remove(i));
    } else {
        assert(s.drop_last()[i] == s[i]);
        lemma_remove_by_id_exact(s.drop_last(), i, id);
        assert(s.last().id != id);
        assert(without_id(s, id) =~= s.remove(i));
    }
}

/// Marking preserves every identifier, so the match count is unchanged.
pub proof fn lemma_count_id_mark(s: Seq<TodoView>, id: u128)
    ensures
        count_id(mark_id(s, id), id) == count_id(s, id),
    decreases s.len(),
{
    if s.len() > 0 {
        lemma_count_id_mark(s.drop_last(), id);
        assert(mark_id(s, id).drop_last() =~= mark_id(s.drop_last(), id));
    }
}

/// Law: marking a present identifier done, among pairwise distinct
/// identifiers, flips exactly that record's `done` and counts one; every
/// other record is unchanged. Marking the same identifier again yields the
/// same list and again a count of one.
pub proof fn lemma_mark_done_by_id_exact(s: Seq<TodoView>, i: int, id: u128)
    requires
        unique_ids(s),
        0 <= i < s.len(),
        s[i].id == id,
    ensures
        count_id(s, id) == 1,
        mark_id(s, id) == s.update(i, TodoView { done: true, ..s[i] }),
        mark_id(mark_id(s, id), id) == mark_id(s, id),
        count_id(mark_id(s, id), id) == 1,
{
    lemma_remove_by_id_exact(s, i, id);
    assert(mark_id(s, id) =~= s.update(i, TodoView { done: true, ..s[i] }));
    assert(mark_id(mark_id(s, id), id) =~= mark_id(s, id));
    lemma_count_id_mark(s, id);
}

/// Marking an absent identifier changes nothing and counts zero.
pub proof fn lemma_mark_done_by_id_absent(s: Seq<TodoView>, id: u128)
    requires
        forall|j: int| 0 <= j < s.len() ==> (#[trigger] s[j]).id != id,
    ensures
        count_id(s, id) == 0,
        mark_id(s, id) == s,
{
    lemma_count_id_absent(s, id);
    assert(mark_id(s, id) =~= s);
}

/// The list after a sequence of appends, one per added record.
pub open spec fn push_all(s: Seq<TodoView>, added: Seq<TodoView>) -> Seq<TodoView>
    decreases added.len(),
{
    if added.len() == 0 {
        s
    } else {
        push_all(s.push(added[0]), added.drop_first())
    }
}

/// Law: any sequence of adds preserves insertion order — the records
/// already present keep their places, and each added record appears exactly
/// once, unmodified, at the position of its add.
pub proof fn lemma_push_all_order(s: Seq<TodoView>, added: Seq<TodoView>)
    ensures
        push_all(s, added).len() == s.len() + added.len(),
        forall|i: int| 0 <= i < s.len() ==> #[trigger] push_all(s, added)[i] == s[i],
        forall|i: int|
            0 <= i < added.len() ==> #[trigger] push_all(s, added)[s.len() + i] == added[i],
    decreases added.len(),
{
    if added.len() > 0 {
        let rest = added.drop_first();
        lemma_push_all_order(s.push(added[0]), rest);
        assert forall|i: int| 0 <= i < added.len() implies #[trigger] push_all(s, added)[s.len()
            + i] == added[i] by {
            if i == 0 {
                assert(push_all(s.push(added[0]), rest)[s.len() as int] == s.push(added[0])[s.len() as int]);
            } else {
                assert(push_all(s.push(added[0]), rest)[(s.len() + 1) + (i - 1)] == rest[i - 1]);
                assert(rest[i - 1] == added[i]);
            }
        }
    }
}

} // verus!
