//! Laws that relate several operations, stated over the abstract state.

use vstd::prelude::*;

use crate::model::{
    all_true, fresh_slots, fresh_state, has_slots, setup_result, step,
    update_error, EntryView, XTError, XTStateView,
};

verus! {

/// The state after the updates `ups`, each `(identifier, value, stamp)`, are
/// made one after another from `s`; refused ones change nothing.
pub open spec fn run(s: XTStateView, ups: Seq<EntryView>) -> XTStateView
    decreases ups.len(),
{
    if ups.len() == 0 {
        s
    } else {
        let u = ups.last();
        step(run(s, ups.drop_last()), u.0, u.1, u.2)
    }
}

/// How many of the updates `ups`, made one after another from `s`, succeed.
pub open spec fn successes(s: XTStateView, ups: Seq<EntryView>) -> nat
    decreases ups.len(),
{
    if ups.len() == 0 {
        0
    } else {
        let u = ups.last();
        successes(s, ups.drop_last()) + if update_error(run(s, ups.drop_last()), u.0) is None {
            1nat
        } else {
            0nat
        }
    }
}

/// Some update among `ups` names `k`.
pub open spec fn mentions(ups: Seq<EntryView>, k: Seq<char>) -> bool {
    exists|j: int| 0 <= j < ups.len() && #[trigger] ups[j].0 == k
}

/// The value that the latest update of `k` among `ups` wrote, if any did.
pub open spec fn last_write(ups: Seq<EntryView>, k: Seq<char>) -> Option<bool>
    decreases ups.len(),
{
    if ups.len() == 0 {
        None
    } else if ups.last().0 == k {
        Some(ups.last().1)
    } else {
        last_write(ups.drop_last(), k)
    }
}

/// The table after slots `ids` were set up and then the updates `ups` made:
/// a slot is `true` exactly when its latest update wrote `true`.
pub open spec fn written_slots(ids: Set<Seq<char>>, ups: Seq<EntryView>) -> Map<Seq<char>, bool> {
    Map::new(|k: Seq<char>| ids.contains(k), |k: Seq<char>| last_write(ups, k) == Some(true))
}

proof fn lemma_run_from_fresh(ids: Set<Seq<char>>, ups: Seq<EntryView>)
    requires
        exists|k: Seq<char>| ids.contains(k),
        forall|j: int| 0 <= j < ups.len() ==> ids.contains(#[trigger] ups[j].0),
    ensures
        run(fresh_state(ids), ups).is_setup,
        run(fresh_state(ids), ups).slots == written_slots(ids, ups),
        run(fresh_state(ids), ups).history == ups,
        run(fresh_state(ids), ups).activated == all_true(written_slots(ids, ups)),
    decreases ups.len(),
{
    let k0 = choose|k: Seq<char>| ids.contains(k);
    if ups.len() == 0 {
        assert(fresh_slots(ids) =~= written_slots(ids, ups));
        assert(written_slots(ids, ups).contains_key(k0));
        assert(!written_slots(ids, ups)[k0]);
    } else {
        let prev = ups.drop_last();
        let u = ups.last();
        assert forall|j: int| 0 <= j < prev.len() implies ids.contains(#[trigger] prev[j].0) by {
            assert(prev[j] == ups[j]);
        }
        lemma_run_from_fresh(ids, prev);
        let pre = run(fresh_state(ids), prev);
        assert(ids.contains(ups[ups.len() - 1].0));
        assert(pre.slots.contains_key(k0));
        assert(update_error(pre, u.0) is None);
        assert(pre.slots.insert(u.0, u.1) =~= written_slots(ids, ups));
        assert(pre.history.push(u) =~= ups);
        assert(written_slots(ids, ups).contains_key(k0));
    }
}

/// Once slots `ids` (at least one) are set up, and the updates `ups`, each
/// naming one of them, are made in any order, the instance is activated
/// exactly when the latest update of every slot of `ids` wrote `true`; a slot
/// that no update named keeps it from activation.
pub proof fn lemma_activation_after_updates(ids: Set<Seq<char>>, ups: Seq<EntryView>)
    requires
        exists|k: Seq<char>| ids.contains(k),
        forall|j: int| 0 <= j < ups.len() ==> ids.contains(#[trigger] ups[j].0),
    ensures
        run(fresh_state(ids), ups).activated == (forall|k: Seq<char>|
            ids.contains(k) ==> #[trigger] last_write(ups, k) == Some(true)),
{
    lemma_run_from_fresh(ids, ups);
    let m = written_slots(ids, ups);
    if forall|k: Seq<char>| ids.contains(k) ==> #[trigger] last_write(ups, k) == Some(true) {
        assert forall|k: Seq<char>| #[trigger] m.contains_key(k) implies m[k] by {
            assert(last_write(ups, k) == Some(true));
        }
    }
    if all_true(m) {
        assert forall|k: Seq<char>| ids.contains(k) implies #[trigger] last_write(ups, k) == Some(
            true,
        ) by {
            assert(m.contains_key(k));
        }
    }
}

proof fn lemma_last_write_all_true(ups: Seq<EntryView>, k: Seq<char>)
    requires
        forall|j: int| 0 <= j < ups.len() ==> (#[trigger] ups[j]).1,
    ensures
        (last_write(ups, k) == Some(true)) == mentions(ups, k),
    decreases ups.len(),
{
    if ups.len() > 0 {
        let prev = ups.drop_last();
        assert forall|j: int| 0 <= j < prev.len() implies (#[trigger] prev[j]).1 by {
            assert(prev[j] == ups[j]);
        }
        lemma_last_write_all_true(prev, k);
        assert(ups[ups.len() - 1].1);
        if mentions(prev, k) {
            let j = choose|j: int| 0 <= j < prev.len() && #[trigger] prev[j].0 == k;
            assert(ups[j].0 == k);
        }
        if mentions(ups, k) && ups.last().0 != k {
            let j = choose|j: int| 0 <= j < ups.len() && #[trigger] ups[j].0 == k;
            assert(prev[j].0 == k);
        }
        if ups.last().0 == k {
            assert(ups[ups.len() - 1].0 == k);
        }
    }
}

/// Once slots `ids` (at least one) are set up, and every update sets one of
/// them to `true`, the instance is activated exactly when every slot of
/// `ids` has been named by some update, whatever the order of the updates.
pub proof fn lemma_all_true_activates(ids: Set<Seq<char>>, ups: Seq<EntryView>)
    requires
        exists|k: Seq<char>| ids.contains(k),
        forall|j: int| 0 <= j < ups.len() ==> ids.contains(#[trigger] ups[j].0) && ups[j].1,
    ensures
        run(fresh_state(ids), ups).activated == (forall|k: Seq<char>|
            ids.contains(k) ==> #[trigger] mentions(ups, k)),
{
    lemma_activation_after_updates(ids, ups);
    assert forall|j: int| 0 <= j < ups.len() implies (#[trigger] ups[j]).1 by {
        assert(ids.contains(ups[j].0) && ups[j].1);
    }
    assert forall|k: Seq<char>| #[trigger] mentions(ups, k) == (last_write(ups, k) == Some(true)) by {
        lemma_last_write_all_true(ups, k);
    }
    if forall|k: Seq<char>| ids.contains(k) ==> #[trigger] mentions(ups, k) {
        assert forall|k: Seq<char>| ids.contains(k) implies #[trigger] last_write(ups, k) == Some(
            true,
        ) by {
            assert(mentions(ups, k));
        }
    }
    if forall|k: Seq<char>| ids.contains(k) ==> #[trigger] last_write(ups, k) == Some(true) {
        assert forall|k: Seq<char>| ids.contains(k) implies #[trigger] mentions(ups, k) by {
            assert(last_write(ups, k) == Some(true));
        }
    }
}

/// Setting a slot to the value it already holds still appends one history
/// entry, and leaves the table and `activated` as they were.
pub proof fn lemma_repeated_update(s: XTStateView, id: Seq<char>, value: bool, stamp: i64)
    requires
        s.inv(),
        s.is_setup,
        s.slots.contains_key(id),
        s.slots[id] == value,
    ensures
        step(s, id, value, stamp).history == s.history.push((id, value, stamp)),
        step(s, id, value, stamp).slots == s.slots,
        step(s, id, value, stamp).activated == s.activated,
{
    assert(has_slots(s.slots));
    assert(s.slots.insert(id, value) =~= s.slots);
}

/// A forced setup succeeds from any state, and leaves an empty history,
/// `activated` false and exactly the new slots, all false.
pub proof fn lemma_forced_setup_resets(s: XTStateView, ids: Set<Seq<char>>)
    ensures
        setup_result(s, ids, true) == Ok::<XTStateView, XTError>(fresh_state(ids)),
        fresh_state(ids).history.len() == 0,
        !fresh_state(ids).activated,
        fresh_state(ids).slots.dom() == ids,
        forall|k: Seq<char>| #[trigger] ids.contains(k) ==> !fresh_state(ids).slots[k],
{
    assert(fresh_state(ids).slots.dom() =~= ids);
}

/// A refused update appends nothing to the history and changes nothing.
pub proof fn lemma_refused_update_changes_nothing(
    s: XTStateView,
    id: Seq<char>,
    value: bool,
    stamp: i64,
)
    requires
        update_error(s, id) is Some,
    ensures
        step(s, id, value, stamp) == s,
{
}

/// After a run of updates the history has grown by exactly the number of
/// updates that succeeded.
pub proof fn lemma_history_counts(s: XTStateView, ups: Seq<EntryView>)
    ensures
        run(s, ups).history.len() == s.history.len() + successes(s, ups),
    decreases ups.len(),
{
    if ups.len() > 0 {
        lemma_history_counts(s, ups.drop_last());
    }
}

/// In a set-up state whose table holds no slot, every update is refused with
/// `NoSlotsDefined`, and changes nothing.
pub proof fn lemma_no_slots_refuses_update(s: XTStateView, id: Seq<char>, value: bool, stamp: i64)
    requires
        s.inv(),
        s.is_setup,
        s.slots.len() == 0,
    ensures
        update_error(s, id) == Some(XTError::NoSlotsDefined),
        step(s, id, value, stamp) == s,
{
    if has_slots(s.slots) {
        let k = choose|k: Seq<char>| #[trigger] s.slots.contains_key(k);
        s.slots.dom().lemma_len0_is_empty();
        assert(s.slots.dom().contains(k));
    }
}

/// After a setup with no slots, every update is refused with `NoSlotsDefined`.
pub proof fn lemma_empty_setup_refuses_updates(
    pre: XTStateView,
    force: bool,
    id: Seq<char>,
)
    requires
        setup_result(pre, Set::empty(), force) is Ok,
    ensures
        update_error(setup_result(pre, Set::empty(), force)->Ok_0, id) == Some(
            XTError::NoSlotsDefined,
        ),
{
    let next = setup_result(pre, Set::empty(), force)->Ok_0;
    assert(!has_slots(next.slots));
}

} // verus!
