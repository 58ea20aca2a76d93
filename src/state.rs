use std::collections::HashSet;
use vstd::prelude::*;

use crate::clock::now_millis;
use crate::model::{
    activation_check, all_true, apply_update, has_slots, initial_state, setup_result, fresh_slots,
    update_error, EntryView, XTError, XTStateView,
};

verus! {

/// The abstract form of one stored history entry.
pub open spec fn entry_view(e: (String, bool, i64)) -> EntryView {
    (e.0@, e.1, e.2)
}

/// The identifiers of a set of strings.
pub open spec fn ids_of(s: Set<String>) -> Set<Seq<char>> {
    s.map(|x: String| x@)
}

/// A set of named boolean slots, its activation flag and its update history.
///
/// The slot table is kept as two parallel vectors, names and values, with no
/// two names equal; `table` is the map they stand for.
pub struct XTState {
    names: Vec<String>,
    values: Vec<bool>,
    history: Vec<(String, bool, i64)>,
    is_setup: bool,
    activated: bool,
    table: Ghost<Map<Seq<char>, bool>>,
}

impl View for XTState {
    type V = XTStateView;

    closed spec fn view(&self) -> XTStateView {
        XTStateView {
            slots: self.table@,
            history: self.history@.map_values(|e: (String, bool, i64)| entry_view(e)),
            is_setup: self.is_setup,
            activated: self.activated,
        }
    }
}

impl XTState {
    /// The two vectors have one value per name, no name twice, and stand for `table`.
    pub closed spec fn table_wf(&self) -> bool {
        &&& self.names.len() == self.values.len()
        &&& self.table@.dom().finite()
        &&& forall|i: int, j: int|
            0 <= i < self.names.len() && 0 <= j < self.names.len() && i != j
                ==> #[trigger] self.names@[i]@ != #[trigger] self.names@[j]@
        &&& forall|i: int|
            0 <= i < self.names.len() ==> {
                &&& self.table@.contains_key(#[trigger] self.names@[i]@)
                &&& self.table@[self.names@[i]@] == self.values@[i]
            }
        &&& forall|k: Seq<char>|
            #[trigger] self.table@.contains_key(k) ==> exists|i: int|
                0 <= i < self.names.len() && #[trigger] self.names@[i]@ == k
    }

    /// Well-formedness: the representation is sound and the state is reachable.
    pub open spec fn wf(&self) -> bool {
        self.table_wf() && self@.inv()
    }

    /// A fresh instance: not set up, no slots, no history, not activated.
    pub fn new() -> (r: XTState)
        ensures
            r.wf(),
            r@ == initial_state(),
    {
        let r = XTState {
            names: Vec::new(),
            values: Vec::new(),
            history: Vec::new(),
            is_setup: false,
            activated: false,
            table: Ghost(Map::empty()),
        };
        assert(r@.history =~= Seq::<EntryView>::empty());
        r
    }
}

impl XTState {
    /// The position of the slot named like `id`, if there is one.
    fn find_slot(&self, id: &String) -> (r: Option<usize>)
        requires
            self.table_wf(),
        ensures
            match r {
                Some(i) => i < self.names.len() && self.names@[i as int]@ == id@,
                None => !self.table@.contains_key(id@),
            },
    {
        let mut i: usize = 0;
        while i < self.names.len()
            invariant
                self.table_wf(),
                i <= self.names.len(),
                forall|j: int| 0 <= j < i ==> self.names@[j]@ != id@,
            decreases self.names.len() - i,
        {
            if self.names[i] == *id {
                return Some(i);
            }
            i = i + 1;
        }
        None
    }

    /// Whether every slot of the table holds `true` (a full scan).
    fn all_slots_true(&self) -> (r: bool)
        requires
            self.table_wf(),
        ensures
            r == all_true(self.table@),
    {
        let mut i: usize = 0;
        while i < self.values.len()
            invariant
                self.table_wf(),
                i <= self.values.len(),
                forall|j: int| 0 <= j < i ==> self.values@[j],
            decreases self.values.len() - i,
        {
            if !self.values[i] {
                assert(!self.table@[self.names@[i as int]@]);
                return false;
            }
            i = i + 1;
        }
        assert forall|k: Seq<char>| #[trigger] self.table@.contains_key(k) implies self.table@[k] by {
            let j = choose|j: int| 0 <= j < self.names.len() && #[trigger] self.names@[j]@ == k;
            assert(self.values@[j]);
        }
        true
    }

    /// Whether the table is empty.
    fn no_slots(&self) -> (r: bool)
        requires
            self.table_wf(),
        ensures
            r == !has_slots(self.table@),
    {
        if self.names.len() == 0 {
            true
        } else {
            assert(self.table@.contains_key(self.names@[0]@));
            false
        }
    }

    /// Sets slot `id` to `value`, recording the update as made at `stamp`
    /// (milliseconds since the epoch), and recomputes `activated`.
    ///
    /// Refused, with the state left as it was: before setup (`NotSetup`), on
    /// an empty table (`NoSlotsDefined`), and for an identifier that is not a
    /// slot (`UnknownIdentifier`), tested in that order.
    pub fn update_at(&mut self, identifier: String, value: bool, stamp: i64) -> (r: Result<
        (),
        XTError,
    >)
        requires
            old(self).wf(),
        ensures
            final(self).wf(),
            match update_error(old(self)@, identifier@) {
                Some(e) => r == Err::<(), XTError>(e) && final(self)@ == old(self)@,
                None => r == Ok::<(), XTError>(()) && final(self)@ == apply_update(
                    old(self)@,
                    identifier@,
                    value,
                    stamp,
                ),
            },
    {
        if !self.is_setup {
            return Err(XTError::NotSetup);
        }
        if self.no_slots() {
            return Err(XTError::NoSlotsDefined);
        }
        let idx = match self.find_slot(&identifier) {
            Some(i) => i,
            None => {
                return Err(XTError::UnknownIdentifier);
            },
        };
        let ghost pre = self@;
        let ghost key = identifier@;
        self.history.push((identifier, value, stamp));
        self.values.set(idx, value);
        self.table = Ghost(self.table@.insert(key, value));
        assert(self.table_wf()) by {
            assert forall|k: Seq<char>| #[trigger] self.table@.contains_key(k) implies exists|i: int|
                0 <= i < self.names.len() && #[trigger] self.names@[i]@ == k by {
                if k != key {
                    assert(old(self).table@.contains_key(k));
                }
            }
        }
        let all = self.all_slots_true();
        self.activated = all;
        assert(self@.slots.contains_key(key));
        assert(self@.history =~= pre.history.push((key, value, stamp)));
        assert(self@ == apply_update(pre, key, value, stamp));
        Ok(())
    }

    /// Sets slot `identifier` to `value`, stamped with the current wall-clock
    /// time, and recomputes `activated`.
    ///
    /// Refused exactly as [`XTState::update_at`] is. On success the state is
    /// the one `update_at` gives for the timestamp that the new history entry
    /// carries.
    pub fn update_callback(&mut self, identifier: String, value: bool) -> (r: Result<(), XTError>)
        requires
            old(self).wf(),
        ensures
            final(self).wf(),
            match update_error(old(self)@, identifier@) {
                Some(e) => r == Err::<(), XTError>(e) && final(self)@ == old(self)@,
                None => {
                    &&& r == Ok::<(), XTError>(())
                    &&& final(self)@ == apply_update(
                        old(self)@,
                        identifier@,
                        value,
                        final(self)@.history.last().2,
                    )
                },
            },
    {
        let stamp = now_millis();
        self.update_at(identifier, value, stamp)
    }
}

/// Relies on `Vec::from_iter` over a `HashSet`: the set's iterator hands out
/// each element once, so the vector holds exactly the set's elements.
#[verifier::external_body]
fn set_items(s: HashSet<String>) -> (r: Vec<String>)
    ensures
        r@.to_set() == s@,
{
    Vec::from_iter(s)
}

impl XTState {
    /// Gives slot `name` the value `false`, adding it if it is new.
    fn insert_false(&mut self, name: String)
        requires
            old(self).table_wf(),
        ensures
            final(self).table_wf(),
            final(self).table@ == old(self).table@.insert(name@, false),
            final(self).history == old(self).history,
            final(self).is_setup == old(self).is_setup,
            final(self).activated == old(self).activated,
    {
        let ghost key = name@;
        match self.find_slot(&name) {
            Some(i) => {
                self.values.set(i, false);
            },
            None => {
                self.names.push(name);
                self.values.push(false);
            },
        }
        self.table = Ghost(self.table@.insert(key, false));
        assert forall|k: Seq<char>| #[trigger] self.table@.contains_key(k) implies exists|i: int|
            0 <= i < self.names.len() && #[trigger] self.names@[i]@ == k by {
            if k != key {
                let j = choose|j: int|
                    0 <= j < old(self).names.len() && #[trigger] old(self).names@[j]@ == k;
                assert(self.names@[j]@ == k);
            } else if self.names.len() > old(self).names.len() {
                assert(self.names@[old(self).names.len() as int]@ == k);
            }
        }
    }

    /// Registers the slots of `slots`, each `false`, and marks the instance set up.
    ///
    /// On an instance already set up this is refused with `AlreadySetup`, and
    /// nothing changes, unless `force` is given: then the table, the history
    /// and `activated` are all cleared first. No history entry is made.
    pub fn setup_slots(&mut self, slots: HashSet<String>, force: bool) -> (r: Result<(), XTError>)
        requires
            old(self).wf(),
        ensures
            final(self).wf(),
            match setup_result(old(self)@, ids_of(slots@), force) {
                Ok(next) => r == Ok::<(), XTError>(()) && final(self)@ == next,
                Err(e) => r == Err::<(), XTError>(e) && final(self)@ == old(self)@,
            },
    {
        if !force && self.is_setup {
            return Err(XTError::AlreadySetup);
        }
        if force && self.is_setup {
            self.is_setup = false;
            self.activated = false;
            self.history.clear();
            self.names.clear();
            self.values.clear();
            self.table = Ghost(Map::empty());
        }
        let ghost ids = ids_of(slots@);
        let items = set_items(slots);
        let mut n: usize = 0;
        while n < items.len()
            invariant
                self.table_wf(),
                n <= items.len(),
                self.history@.len() == 0,
                !self.activated,
                forall|k: Seq<char>| #[trigger]
                    self.table@.contains_key(k) <==> exists|j: int|
                        0 <= j < n && #[trigger] items@[j]@ == k,
                forall|k: Seq<char>| #[trigger] self.table@.contains_key(k) ==> !self.table@[k],
            decreases items.len() - n,
        {
            let ghost pre = self.table@;
            self.insert_false(items[n].clone());
            assert forall|k: Seq<char>| #[trigger]
                self.table@.contains_key(k) <==> exists|j: int|
                    0 <= j < n + 1 && #[trigger] items@[j]@ == k by {
                if pre.contains_key(k) {
                    let j = choose|j: int| 0 <= j < n && #[trigger] items@[j]@ == k;
                    assert(0 <= j < n + 1 && items@[j]@ == k);
                }
                if k == items@[n as int]@ {
                    assert(0 <= n < n + 1 && items@[n as int]@ == k);
                }
            }
            n = n + 1;
        }
        self.is_setup = true;
        assert(self.table@ =~= fresh_slots(ids)) by {
            assert forall|k: Seq<char>| #[trigger] self.table@.contains_key(k) implies ids.contains(k) by {
                let j = choose|j: int| 0 <= j < n && #[trigger] items@[j]@ == k;
                assert(items@.to_set().contains(items@[j]));
            }
            assert forall|k: Seq<char>| ids.contains(k) implies #[trigger] self.table@.contains_key(k) by {
                let x = choose|x: String| slots@.contains(x) && x@ == k;
                assert(items@.to_set().contains(x));
                let j = choose|j: int| 0 <= j < items@.len() && items@[j] == x;
                assert(items@[j]@ == k);
            }
        }
        assert(self@.history =~= Seq::<EntryView>::empty());
        Ok(())
    }

    /// Whether every slot holds `true`.
    ///
    /// Refused before setup (`NotSetup`) and on an empty table (`NoSlotsDefined`).
    pub fn can_activate(&self) -> (r: Result<bool, XTError>)
        requires
            self.wf(),
        ensures
            r == activation_check(self@),
    {
        if !self.is_setup {
            return Err(XTError::NotSetup);
        }
        if self.no_slots() {
            return Err(XTError::NoSlotsDefined);
        }
        Ok(self.all_slots_true())
    }
}

impl XTState {
    /// Whether every slot held `true` after the last successful update.
    pub fn activated(&self) -> (r: bool)
        ensures
            r == self@.activated,
    {
        self.activated
    }

    /// Whether a setup has succeeded.
    pub fn is_setup(&self) -> (r: bool)
        ensures
            r == self@.is_setup,
    {
        self.is_setup
    }

    /// The history, oldest entry first.
    pub fn history(&self) -> (r: &Vec<(String, bool, i64)>)
        ensures
            r@.map_values(|e: (String, bool, i64)| entry_view(e)) == self@.history,
    {
        &self.history
    }

    /// The value of slot `id`, or `None` when there is no such slot.
    pub fn slot_value(&self, id: &String) -> (r: Option<bool>)
        requires
            self.wf(),
        ensures
            r == (if self@.slots.contains_key(id@) {
                Some(self@.slots[id@])
            } else {
                None
            }),
    {
        match self.find_slot(id) {
            Some(i) => Some(self.values[i]),
            None => None,
        }
    }
}

impl Default for XTState {
    fn default() -> (r: XTState)
        ensures
            r.wf(),
            r@ == initial_state(),
    {
        XTState::new()
    }
}

} // verus!
