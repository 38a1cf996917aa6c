//! What holds of the table operations taken together.
use vstd::prelude::*;
use crate::listing::{listing, row_line};
use crate::table::{
    Row, added, after_reset, ended, has_id, lemma_pending_empty, lemma_pending_rows,
    lemma_removed_absent, lemma_removed_one, next_id, pending, removed, can_add, well_formed,
};
use crate::text::{joined, reset_phrase, trimmed};

verus! {

/// Adding a task named by the words, then listing, shows the old listing and
/// exactly one new line: the new id, the words joined by spaces, not
/// completed. No other row has that id.
pub proof fn law_add_then_list(s: Seq<Row>, words: Seq<Seq<char>>)
    requires
        well_formed(s),
        can_add(s),
    ensures
        well_formed(added(s, joined(words))),
        listing(added(s, joined(words))) == listing(s).push(
            row_line((next_id(s) as u32, joined(words), false)),
        ),
        forall|i: int| 0 <= i < s.len() ==> s[i].0 != next_id(s),
        added(s, joined(words)).last() == (next_id(s) as u32, joined(words), false),
{
    let t = added(s, joined(words));
    assert(listing(t) =~= listing(s).push(row_line((next_id(s) as u32, joined(words), false))));
    assert forall|i: int| 0 <= i < s.len() implies s[i].0 < next_id(s) by {
        if i < s.len() - 1 {
            assert(s[i].0 < s[s.len() - 1].0);
        }
    }
    assert forall|i: int, j: int| 0 <= i < j < t.len() implies t[i].0 < t[j].0 by {
        if j == t.len() - 1 {
            assert(s[i].0 < next_id(s));
        }
    }
}

/// Ending an id that no task has changes nothing.
pub proof fn law_end_absent(s: Seq<Row>, id: u32)
    requires
        !has_id(s, id),
    ensures
        ended(s, id) == s,
{
    assert forall|i: int| 0 <= i < s.len() implies ended(s, id)[i] == s[i] by {
        assert(s[i].0 != id);
    }
    assert(ended(s, id) =~= s);
}

/// Ending a present task completes it, and the task is still there, so ending
/// it a second time reports success again and changes nothing more.
pub proof fn law_end_twice(s: Seq<Row>, id: u32)
    requires
        has_id(s, id),
    ensures
        has_id(ended(s, id), id),
        forall|i: int| 0 <= i < s.len() && s[i].0 == id ==> ended(s, id)[i].2,
        ended(ended(s, id), id) == ended(s, id),
{
    let k = choose|k: int| 0 <= k < s.len() && s[k].0 == id;
    assert(ended(s, id)[k].0 == id);
    assert(ended(ended(s, id), id) =~= ended(s, id));
}

/// Removing a present id deletes that one row and keeps the others in order;
/// removing an absent id leaves the table as it was.
pub proof fn law_remove(s: Seq<Row>, id: u32)
    requires
        well_formed(s),
    ensures
        has_id(s, id) ==> exists|k: int|
            0 <= k < s.len() && s[k].0 == id && removed(s, id) == s.remove(k),
        !has_id(s, id) ==> removed(s, id) == s,
{
    if has_id(s, id) {
        let k = choose|k: int| 0 <= k < s.len() && s[k].0 == id;
        lemma_removed_one(s, id, k);
    } else {
        lemma_removed_absent(s, id);
    }
}

/// A reset empties the table only when the typed line, trimmed, is the
/// confirmation phrase exactly; any other line leaves the table unchanged.
pub proof fn law_reset_needs_phrase(s: Seq<Row>, line: Seq<char>)
    ensures
        trimmed(line) == reset_phrase() ==> after_reset(s, trimmed(line) == reset_phrase()).len()
            == 0,
        trimmed(line) != reset_phrase() ==> after_reset(s, trimmed(line) == reset_phrase()) == s,
{
}

/// Every task a pick can return is pending and in the table, and there is
/// none to pick exactly when every task is completed.
pub proof fn law_pick_is_pending(s: Seq<Row>)
    ensures
        forall|i: int| 0 <= i < pending(s).len() ==> !pending(s)[i].2 && s.contains(pending(s)[i]),
        pending(s).len() == 0 <==> forall|i: int| 0 <= i < s.len() ==> s[i].2,
{
    lemma_pending_rows(s);
    lemma_pending_empty(s);
}

} // verus!
