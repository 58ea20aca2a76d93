use vstd::prelude::*;

verus! {

/// The ways an operation on an [`crate::XTState`] can be refused.
#[derive(Debug, Clone, Copy, PartialEq, Eq, Structural)]
pub enum XTError {
    /// `setup_slots` was called on a set-up instance without `force`.
    AlreadySetup,
    /// An update or activation check came before any setup.
    NotSetup,
    /// The identifier given to an update is not a registered slot.
    UnknownIdentifier,
    /// The instance was set up with no slots at all.
    NoSlotsDefined,
}

/// One history entry: identifier, new value, milliseconds since the epoch.
pub type EntryView = (Seq<char>, bool, i64);

/// The abstract state of an [`crate::XTState`].
pub ghost struct XTStateView {
    pub slots: Map<Seq<char>, bool>,
    pub history: Seq<EntryView>,
    pub is_setup: bool,
    pub activated: bool,
}

/// Every registered slot holds `true`.
pub open spec fn all_true(slots: Map<Seq<char>, bool>) -> bool {
    forall|k: Seq<char>| #[trigger] slots.contains_key(k) ==> slots[k]
}

/// The table holds at least one slot.
pub open spec fn has_slots(slots: Map<Seq<char>, bool>) -> bool {
    exists|k: Seq<char>| #[trigger] slots.contains_key(k)
}

/// What `activated` must be for a given slot table.
pub open spec fn activation_of(slots: Map<Seq<char>, bool>) -> bool {
    has_slots(slots) && all_true(slots)
}

/// The table that setup builds: every identifier of `ids`, all false.
pub open spec fn fresh_slots(ids: Set<Seq<char>>) -> Map<Seq<char>, bool> {
    Map::new(|k: Seq<char>| ids.contains(k), |k: Seq<char>| false)
}

/// The state right after a successful setup with `ids`.
pub open spec fn fresh_state(ids: Set<Seq<char>>) -> XTStateView {
    XTStateView { slots: fresh_slots(ids), history: Seq::empty(), is_setup: true, activated: false }
}

/// The state of a newly constructed instance.
pub open spec fn initial_state() -> XTStateView {
    XTStateView { slots: Map::empty(), history: Seq::empty(), is_setup: false, activated: false }
}

impl XTStateView {
    /// What every reachable state satisfies: the table is finite, nothing is
    /// recorded before setup, and `activated` agrees with the table.
    pub open spec fn inv(self) -> bool {
        &&& self.slots.dom().finite()
        &&& !self.is_setup ==> self.slots == Map::<Seq<char>, bool>::empty()
            && self.history.len() == 0
        &&& self.activated == activation_of(self.slots)
    }
}

/// The outcome of `setup_slots(ids, force)` from `pre`.
pub open spec fn setup_result(pre: XTStateView, ids: Set<Seq<char>>, force: bool) -> Result<
    XTStateView,
    XTError,
> {
    if pre.is_setup && !force {
        Err(XTError::AlreadySetup)
    } else {
        Ok(fresh_state(ids))
    }
}

/// The error, if any, that an update of `id` meets in state `pre`.
pub open spec fn update_error(pre: XTStateView, id: Seq<char>) -> Option<XTError> {
    if !pre.is_setup {
        Some(XTError::NotSetup)
    } else if !has_slots(pre.slots) {
        Some(XTError::NoSlotsDefined)
    } else if !pre.slots.contains_key(id) {
        Some(XTError::UnknownIdentifier)
    } else {
        None
    }
}

/// The state after a successful update of `id` to `value` at time `stamp`.
pub open spec fn apply_update(pre: XTStateView, id: Seq<char>, value: bool, stamp: i64) -> XTStateView {
    let slots = pre.slots.insert(id, value);
    XTStateView {
        slots,
        history: pre.history.push((id, value, stamp)),
        is_setup: pre.is_setup,
        activated: activation_of(slots),
    }
}

/// One update, successful or not: a refused update leaves the state as it was.
pub open spec fn step(pre: XTStateView, id: Seq<char>, value: bool, stamp: i64) -> XTStateView {
    match update_error(pre, id) {
        Some(_) => pre,
        None => apply_update(pre, id, value, stamp),
    }
}

/// What `can_activate` reports in state `s`.
pub open spec fn activation_check(s: XTStateView) -> Result<bool, XTError> {
    if !s.is_setup {
        Err(XTError::NotSetup)
    } else if !has_slots(s.slots) {
        Err(XTError::NoSlotsDefined)
    } else {
        Ok(all_true(s.slots))
    }
}

} // verus!
