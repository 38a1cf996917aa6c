//! The tasks table: rows of id, name and completion flag, ids positive and
//! strictly increasing in row order, as the store hands them back.
use vstd::prelude::*;

verus! {

/// A row as the contracts see it: id, name, completion flag.
pub type Row = (u32, Seq<char>, bool);

/// One task.
pub struct Task {
    pub id: u32,
    pub name: String,
    pub completed: bool,
}

impl View for Task {
    type V = Row;

    open spec fn view(&self) -> Row {
        (self.id, self.name@, self.completed)
    }
}

/// Why a task could not be added.
#[derive(Debug, PartialEq, Eq, Structural, Clone, Copy)]
pub enum AddError {
    /// The largest id is taken, so no new one can be handed out.
    IdsExhausted,
}

/// What ending a task came to.
#[derive(Debug, PartialEq, Eq, Structural, Clone, Copy)]
pub enum EndOutcome {
    /// No task has that id; nothing changed.
    NoSuchId,
    /// The task is marked completed.
    Completed,
}

/// Why no task could be picked.
#[derive(Debug, PartialEq, Eq, Structural, Clone, Copy)]
pub enum PickError {
    /// Every task is completed, or there are none.
    NoPendingTask,
}

/// The table: rows in increasing id order.
pub struct TaskTable {
    rows: Vec<Task>,
}

/// Ids are positive and strictly increasing along the rows.
pub open spec fn well_formed(s: Seq<Row>) -> bool {
    &&& forall|i: int| 0 <= i < s.len() ==> s[i].0 > 0
    &&& forall|i: int, j: int| 0 <= i < j < s.len() ==> s[i].0 < s[j].0
}

/// Whether a row has id `id`.
pub open spec fn has_id(s: Seq<Row>, id: u32) -> bool {
    exists|i: int| 0 <= i < s.len() && s[i].0 == id
}

/// The id a new row receives: one past the last, or 1 in an empty table.
pub open spec fn next_id(s: Seq<Row>) -> int {
    if s.len() == 0 {
        1
    } else {
        s.last().0 + 1
    }
}

/// Whether a new row can still get an id.
pub open spec fn can_add(s: Seq<Row>) -> bool {
    next_id(s) <= u32::MAX
}

/// The table after adding a task named `name`.
pub open spec fn added(s: Seq<Row>, name: Seq<char>) -> Seq<Row> {
    s.push((next_id(s) as u32, name, false))
}

/// The table after marking task `id` completed.
pub open spec fn ended(s: Seq<Row>, id: u32) -> Seq<Row> {
    Seq::new(s.len(), |i: int| if s[i].0 == id { (s[i].0, s[i].1, true) } else { s[i] })
}

/// The table without the rows of id `id`.
pub open spec fn removed(s: Seq<Row>, id: u32) -> Seq<Row>
    decreases s.len(),
{
    if s.len() == 0 {
        Seq::empty()
    } else if s.last().0 == id {
        removed(s.drop_last(), id)
    } else {
        removed(s.drop_last(), id).push(s.last())
    }
}

/// The rows not yet completed, in table order.
pub open spec fn pending(s: Seq<Row>) -> Seq<Row>
    decreases s.len(),
{
    if s.len() == 0 {
        Seq::empty()
    } else if s.last().2 {
        pending(s.drop_last())
    } else {
        pending(s.drop_last()).push(s.last())
    }
}

/// The table after a reset answered with `confirmed`.
pub open spec fn after_reset(s: Seq<Row>, confirmed: bool) -> Seq<Row> {
    if confirmed {
        Seq::empty()
    } else {
        s
    }
}

pub proof fn lemma_removed_absent(s: Seq<Row>, id: u32)
    requires
        !has_id(s, id),
    ensures
        removed(s, id) == s,
    decreases s.len(),
{
    if s.len() > 0 {
        assert(!has_id(s.drop_last(), id)) by {
            if has_id(s.drop_last(), id) {
                let i = choose|i: int| 0 <= i < s.len() - 1 && s.drop_last()[i].0 == id;
                assert(s[i].0 == id);
            }
        }
        lemma_removed_absent(s.drop_last(), id);
        assert(s.last().0 != id);
        assert(s.drop_last().push(s.last()) =~= s);
    }
}

pub proof fn lemma_removed_one(s: Seq<Row>, id: u32, k: int)
    requires
        well_formed(s),
        0 <= k < s.len(),
        s[k].0 == id,
    ensures
        removed(s, id) == s.remove(k),
    decreases s.len(),
{
    if k == s.len() - 1 {
        assert(!has_id(s.drop_last(), id));
        lemma_removed_absent(s.drop_last(), id);
        assert(s.drop_last() =~= s.remove(k));
    } else {
        assert(well_formed(s.drop_last()));
        lemma_removed_one(s.drop_last(), id, k);
        assert(s.last().0 != id);
        assert(s.drop_last().remove(k).push(s.last()) =~= s.remove(k));
    }
}

pub proof fn lemma_pending_rows(s: Seq<Row>)
    ensures
        forall|i: int| 0 <= i < pending(s).len() ==> !pending(s)[i].2 && s.contains(pending(s)[i]),
        pending(s).len() <= s.len(),
    decreases s.len(),
{
    if s.len() > 0 {
        lemma_pending_rows(s.drop_last());
        assert forall|i: int| 0 <= i < pending(s).len() implies !pending(s)[i].2 && s.contains(
            pending(s)[i],
        ) by {
            if i < pending(s.drop_last()).len() {
                let j = choose|j: int|
                    0 <= j < s.drop_last().len() && s.drop_last()[j] == pending(s.drop_last())[i];
                assert(s[j] == pending(s)[i]);
            } else {
                assert(s[s.len() - 1] == pending(s)[i]);
            }
        }
    }
}

pub proof fn lemma_pending_empty(s: Seq<Row>)
    ensures
        pending(s).len() == 0 <==> forall|i: int| 0 <= i < s.len() ==> s[i].2,
    decreases s.len(),
{
    if s.len() > 0 {
        lemma_pending_empty(s.drop_last());
        if pending(s).len() == 0 {
            assert forall|i: int| 0 <= i < s.len() implies s[i].2 by {
                if i < s.len() - 1 {
                    assert(s.drop_last()[i] == s[i]);
                }
            }
        }
        if forall|i: int| 0 <= i < s.len() ==> s[i].2 {
            assert forall|i: int| 0 <= i < s.drop_last().len() implies s.drop_last()[i].2 by {
                assert(s.drop_last()[i] == s[i]);
            }
            assert(s[s.len() - 1].2);
        }
    }
}

fn copy_task(t: &Task) -> (r: Task)
    ensures
        r@ == t@,
{
    Task { id: t.id, name: t.name.clone(), completed: t.completed }
}

impl View for TaskTable {
    type V = Seq<Row>;

    closed spec fn view(&self) -> Seq<Row> {
        self.rows@.map_values(|t: Task| t@)
    }
}

impl TaskTable {
    pub open spec fn wf(&self) -> bool {
        well_formed(self@)
    }

    /// An empty table.
    pub fn new() -> (r: TaskTable)
        ensures
            r@ == Seq::<Row>::empty(),
            r.wf(),
    {
        let r = TaskTable { rows: Vec::new() };
        assert(r@ =~= Seq::<Row>::empty());
        r
    }

    /// The table holding `rows`, in that order, where their ids are positive
    /// and strictly increasing; `None` otherwise.
    pub fn from_rows(rows: Vec<Task>) -> (r: Option<TaskTable>)
        ensures
            well_formed(rows@.map_values(|t: Task| t@)) <==> r is Some,
            r matches Some(t) ==> t@ == rows@.map_values(|t: Task| t@) && t.wf(),
    {
        let ghost s = rows@.map_values(|t: Task| t@);
        let mut i: usize = 0;
        while i < rows.len()
            invariant
                0 <= i <= rows@.len(),
                s == rows@.map_values(|t: Task| t@),
                well_formed(s.subrange(0, i as int)),
            decreases rows@.len() - i,
        {
            if rows[i].id == 0 || (i > 0 && rows[i - 1].id >= rows[i].id) {
                proof {
                    if rows[i as int].id == 0 {
                        assert(s[i as int].0 == 0);
                    } else {
                        assert(s[i - 1].0 >= s[i as int].0);
                    }
                }
                return None;
            }
            proof {
                let p = s.subrange(0, i + 1);
                assert forall|a: int, b: int| 0 <= a < b < p.len() implies p[a].0 < p[b].0 by {
                    if b < i {
                        assert(s.subrange(0, i as int)[a] == p[a]);
                        assert(s.subrange(0, i as int)[b] == p[b]);
                    } else if a < i - 1 {
                        assert(s.subrange(0, i as int)[a] == p[a]);
                        assert(s.subrange(0, i as int)[i - 1] == p[i - 1]);
                    }
                }
                assert forall|a: int| 0 <= a < p.len() implies p[a].0 > 0 by {
                    if a < i {
                        assert(s.subrange(0, i as int)[a] == p[a]);
                    }
                }
            }
            i = i + 1;
        }
        proof {
            assert(s.subrange(0, i as int) =~= s);
        }
        Some(TaskTable { rows })
    }

    /// The rows, in id order.
    pub fn rows(&self) -> (r: &Vec<Task>)
        ensures
            r@.map_values(|t: Task| t@) == self@,
    {
        &self.rows
    }

    /// Adds a task named `name`, not completed, under the next id, and
    /// returns that id.
    pub fn add(&mut self, name: String) -> (r: Result<u32, AddError>)
        requires
            old(self).wf(),
        ensures
            final(self).wf(),
            can_add(old(self)@) <==> r is Ok,
            r matches Ok(id) ==> id == next_id(old(self)@) && final(self)@ == added(
                old(self)@,
                name@,
            ),
            r is Err ==> final(self)@ == old(self)@,
    {
        let n = self.rows.len();
        let id: u32 = if n == 0 {
            1
        } else {
            let last = self.rows[n - 1].id;
            if last == u32::MAX {
                return Err(AddError::IdsExhausted);
            }
            last + 1
        };
        let ghost before = self@;
        self.rows.push(Task { id, name, completed: false });
        proof {
            assert(self@ =~= added(before, name@));
        }
        Ok(id)
    }

    fn position(&self, id: u32) -> (r: Option<usize>)
        ensures
            r is None ==> !has_id(self@, id),
            r matches Some(k) ==> k < self@.len() && self@[k as int].0 == id,
    {
        let mut k: usize = 0;
        while k < self.rows.len()
            invariant
                0 <= k <= self.rows@.len(),
                forall|j: int| 0 <= j < k ==> self@[j].0 != id,
            decreases self.rows@.len() - k,
        {
            if self.rows[k].id == id {
                return Some(k);
            }
            k = k + 1;
        }
        None
    }

    /// Marks task `id` completed. Reports whether such a task exists; ending a
    /// completed task again reports the same and changes nothing further.
    pub fn end(&mut self, id: u32) -> (r: EndOutcome)
        requires
            old(self).wf(),
        ensures
            final(self).wf(),
            (r == EndOutcome::Completed) == has_id(old(self)@, id),
            final(self)@ == ended(old(self)@, id),
    {
        let ghost before = self@;
        match self.position(id) {
            None => {
                assert(self@ =~= ended(before, id));
                EndOutcome::NoSuchId
            },
            Some(k) => {
                let mut t = self.rows.remove(k);
                t.completed = true;
                self.rows.insert(k, t);
                assert(self@ =~= ended(before, id));
                EndOutcome::Completed
            },
        }
    }

    /// Deletes task `id`; reports whether there was one. Other rows stay.
    pub fn remove(&mut self, id: u32) -> (r: bool)
        requires
            old(self).wf(),
        ensures
            final(self).wf(),
            r == has_id(old(self)@, id),
            final(self)@ == removed(old(self)@, id),
    {
        let ghost before = self@;
        match self.position(id) {
            None => {
                proof {
                    lemma_removed_absent(before, id);
                }
                false
            },
            Some(k) => {
                self.rows.remove(k);
                proof {
                    lemma_removed_one(before, id, k as int);
                    assert(self@ =~= before.remove(k as int));
                }
                true
            },
        }
    }

    /// Deletes every task when `confirmed`; otherwise leaves the table.
    pub fn reset(&mut self, confirmed: bool)
        requires
            old(self).wf(),
        ensures
            final(self).wf(),
            final(self)@ == after_reset(old(self)@, confirmed),
    {
        if confirmed {
            self.rows.clear();
            assert(self@ =~= Seq::<Row>::empty());
        }
    }

    /// The tasks not yet completed, in id order.
    pub fn pending_tasks(&self) -> (r: Vec<Task>)
        ensures
            r@.map_values(|t: Task| t@) == pending(self@),
    {
        let mut out: Vec<Task> = Vec::new();
        let mut k: usize = 0;
        while k < self.rows.len()
            invariant
                0 <= k <= self.rows@.len(),
                out@.map_values(|t: Task| t@) == pending(self@.subrange(0, k as int)),
            decreases self.rows@.len() - k,
        {
            proof {
                assert(self@.subrange(0, k + 1).drop_last() =~= self@.subrange(0, k as int));
            }
            if !self.rows[k].completed {
                out.push(copy_task(&self.rows[k]));
                assert(out@.map_values(|t: Task| t@) =~= pending(self@.subrange(0, k + 1)));
            }
            k = k + 1;
        }
        proof {
            assert(self@.subrange(0, k as int) =~= self@);
        }
        out
    }

    /// The pending task at `index` among the pending tasks in id order.
    pub fn pick_at(&self, index: usize) -> (r: Result<Task, PickError>)
        ensures
            (index < pending(self@).len()) <==> r is Ok,
            r matches Ok(t) ==> t@ == pending(self@)[index as int],
    {
        let p = self.pending_tasks();
        if index < p.len() {
            Ok(copy_task(&p[index]))
        } else {
            Err(PickError::NoPendingTask)
        }
    }

    /// A pending task chosen at random; an error when every task is completed.
    pub fn random(&self) -> (r: Result<Task, PickError>)
        ensures
            (pending(self@).len() > 0) <==> r is Ok,
            r matches Ok(t) ==> pending(self@).contains(t@),
    {
        let p = self.pending_tasks();
        if p.len() == 0 {
            return Err(PickError::NoPendingTask);
        }
        let index = random_index(p.len());
        let r = self.pick_at(index);
        assert(pending(self@)[index as int] == pending(self@)[index as int]);
        r
    }
}

/// Relies on rand's `thread_rng` and `Rng::gen_range`: a value drawn from
/// `0..len`, which is not empty.
#[verifier::external_body]
fn random_index(len: usize) -> (r: usize)
    requires
        len > 0,
    ensures
        r < len,
{
    rand::Rng::gen_range(&mut rand::thread_rng(), 0..len)
}

} // verus!
