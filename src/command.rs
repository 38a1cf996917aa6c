//! One command applied to the table, with what it came to. Whatever has to be
//! typed in (a task name, the reset confirmation) is read beforehand and
//! handed over as text.
use vstd::prelude::*;
use crate::listing::{list_lines, listing};
use crate::table::{
    AddError, EndOutcome, PickError, Task, TaskTable, added, after_reset, can_add, ended,
    has_id, next_id, pending, removed,
};
use crate::text::{confirms_reset, reset_phrase, trimmed};

verus! {

/// A command with its inputs in hand.
pub enum Request {
    /// Add a task of this name.
    Add(String),
    /// Delete the task of this id.
    Remove(u32),
    /// Mark the task of this id completed.
    End(u32),
    /// Show every task.
    List,
    /// Delete every task, given the line typed in answer to the question.
    Reset(String),
    /// Pick a pending task at random.
    Random,
    /// Add a sub-task under a task: not supported yet.
    Sub(u32, Vec<String>),
}

/// What a command came to.
pub enum Report {
    /// The task was added under this id.
    Added(u32, String),
    /// No id was left for a new task.
    AddFailed(AddError),
    /// Removal of this id; whether a task had it.
    Removed(u32, bool),
    /// Ending this id, and how that went.
    Ended(u32, EndOutcome),
    /// The listing lines.
    Listed(Vec<String>),
    /// Every task was deleted.
    ResetDone,
    /// The confirmation did not match; nothing was deleted.
    ResetAborted,
    /// The task picked.
    Picked(Task),
    /// No pending task to pick from.
    PickFailed(PickError),
    /// Sub-tasks are not supported yet.
    NotSupported,
}

/// Carries out `req` on `table`.
pub fn execute(table: &mut TaskTable, req: Request) -> (r: Report)
    requires
        old(table).wf(),
    ensures
        final(table).wf(),
        match req {
            Request::Add(name) => if can_add(old(table)@) {
                r == Report::Added(next_id(old(table)@) as u32, name) && final(table)@ == added(
                    old(table)@,
                    name@,
                )
            } else {
                r == Report::AddFailed(AddError::IdsExhausted) && final(table)@ == old(table)@
            },
            Request::Remove(id) => r == Report::Removed(id, has_id(old(table)@, id))
                && final(table)@ == removed(old(table)@, id),
            Request::End(id) => r == Report::Ended(
                id,
                if has_id(old(table)@, id) {
                    EndOutcome::Completed
                } else {
                    EndOutcome::NoSuchId
                },
            ) && final(table)@ == ended(old(table)@, id),
            Request::List => final(table)@ == old(table)@ && (r matches Report::Listed(lines)
                && lines@.map_values(|l: String| l@) == listing(old(table)@)),
            Request::Reset(line) => final(table)@ == after_reset(
                old(table)@,
                trimmed(line@) == reset_phrase(),
            ) && r == (if trimmed(line@) == reset_phrase() {
                Report::ResetDone
            } else {
                Report::ResetAborted
            }),
            Request::Random => final(table)@ == old(table)@ && (if pending(old(table)@).len()
                > 0 {
                r matches Report::Picked(t) && pending(old(table)@).contains(t@)
            } else {
                r == Report::PickFailed(PickError::NoPendingTask)
            }),
            Request::Sub(_, _) => r == Report::NotSupported && final(table)@ == old(table)@,
        },
{
    match req {
        Request::Add(name) => {
            let shown = name.clone();
            match table.add(name) {
                Ok(id) => Report::Added(id, shown),
                Err(e) => Report::AddFailed(e),
            }
        },
        Request::Remove(id) => {
            let existed = table.remove(id);
            Report::Removed(id, existed)
        },
        Request::End(id) => {
            let outcome = table.end(id);
            Report::Ended(id, outcome)
        },
        Request::List => Report::Listed(list_lines(table)),
        Request::Reset(line) => {
            let confirmed = confirms_reset(line.as_str());
            table.reset(confirmed);
            if confirmed {
                Report::ResetDone
            } else {
                Report::ResetAborted
            }
        },
        Request::Random => match table.random() {
            Ok(t) => Report::Picked(t),
            Err(e) => Report::PickFailed(e),
        },
        Request::Sub(_, _) => Report::NotSupported,
    }
}

} // verus!
