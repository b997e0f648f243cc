use vstd::prelude::*;
use crate::error::EngineError;

verus! {

/// The id of the realm that every engine instance starts with. It is never
/// created or dropped here, so it always counts as taken.
pub const MAIN_REALM_ID: &'static str = "__main__";

/// One live context: its id, how many dispatches against it are in flight,
/// and whether it has been dropped while some still were.
pub struct ContextSlot {
    pub id: String,
    pub in_flight: u64,
    pub closing: bool,
}

/// The set of live contexts of one engine instance, with a reference count
/// per context so that a context is destroyed only once no dispatch against
/// it is outstanding.
pub struct ContextRegistry {
    pub slots: Vec<ContextSlot>,
    pub capacity: usize,
}

/// Slot `i` holds the context `id`.
pub open spec fn slot_is(slots: Seq<ContextSlot>, id: Seq<char>, i: int) -> bool {
    0 <= i < slots.len() && slots[i].id@ == id
}

/// Some slot holds the context `id`.
pub open spec fn is_known(slots: Seq<ContextSlot>, id: Seq<char>) -> bool {
    exists|i: int| slot_is(slots, id, i)
}

/// The slot that holds `id` (meaningful when `id` is known).
pub open spec fn slot_index(slots: Seq<ContextSlot>, id: Seq<char>) -> int {
    choose|i: int| slot_is(slots, id, i)
}

/// `id` is known and has not been dropped: dispatches may target it.
pub open spec fn is_open(slots: Seq<ContextSlot>, id: Seq<char>) -> bool {
    is_known(slots, id) && !slots[slot_index(slots, id)].closing
}

/// Ids are unique, the capacity holds, and only a context with dispatches in
/// flight can be closing.
pub open spec fn registry_wf(slots: Seq<ContextSlot>, capacity: nat) -> bool {
    &&& slots.len() <= capacity
    &&& forall|i: int, j: int|
        0 <= i < slots.len() && 0 <= j < slots.len() && i != j ==> #[trigger] slots[i].id@ != #[trigger] slots[j].id@
    &&& forall|i: int| 0 <= i < slots.len() && #[trigger] slots[i].closing ==> slots[i].in_flight > 0
    &&& forall|i: int| 0 <= i < slots.len() ==> #[trigger] slots[i].id@ != MAIN_REALM_ID@
}

pub open spec fn as_result(e: Option<EngineError>) -> Result<(), EngineError> {
    match e {
        Some(e) => Err(e),
        None => Ok(()),
    }
}

/// Why `create_context(id)` fails, if it does.
pub open spec fn create_error(slots: Seq<ContextSlot>, capacity: nat, id: Seq<char>) -> Option<EngineError> {
    if id == MAIN_REALM_ID@ || is_known(slots, id) {
        Some(EngineError::ContextAlreadyExists)
    } else if slots.len() >= capacity {
        Some(EngineError::EngineCapacityExceeded)
    } else {
        None
    }
}

/// The slots after `create_context(id)`.
pub open spec fn create_next(slots: Seq<ContextSlot>, capacity: nat, id: String) -> Seq<ContextSlot> {
    if create_error(slots, capacity, id@) is None {
        slots.push(ContextSlot { id, in_flight: 0, closing: false })
    } else {
        slots
    }
}

/// Why `begin_dispatch(id)` fails, if it does.
pub open spec fn begin_error(slots: Seq<ContextSlot>, id: Seq<char>) -> Option<EngineError> {
    if !is_open(slots, id) {
        Some(EngineError::ContextNotFound)
    } else if slots[slot_index(slots, id)].in_flight == u64::MAX {
        Some(EngineError::DispatchRejected)
    } else {
        None
    }
}

/// The slots after `begin_dispatch(id)`.
pub open spec fn begin_next(slots: Seq<ContextSlot>, id: Seq<char>) -> Seq<ContextSlot> {
    if begin_error(slots, id) is None {
        let i = slot_index(slots, id);
        slots.update(i, ContextSlot { id: slots[i].id, in_flight: (slots[i].in_flight + 1) as u64, closing: false })
    } else {
        slots
    }
}

/// `end_dispatch(id)` has a dispatch to release.
pub open spec fn end_applies(slots: Seq<ContextSlot>, id: Seq<char>) -> bool {
    is_known(slots, id) && slots[slot_index(slots, id)].in_flight > 0
}

/// `end_dispatch(id)` releases the last dispatch of a dropped context, which
/// must now be destroyed.
pub open spec fn end_frees(slots: Seq<ContextSlot>, id: Seq<char>) -> bool {
    end_applies(slots, id) && slots[slot_index(slots, id)].in_flight == 1 && slots[slot_index(slots, id)].closing
}

/// The slots after `end_dispatch(id)`.
pub open spec fn end_next(slots: Seq<ContextSlot>, id: Seq<char>) -> Seq<ContextSlot> {
    let i = slot_index(slots, id);
    if !end_applies(slots, id) {
        slots
    } else if end_frees(slots, id) {
        slots.remove(i)
    } else {
        slots.update(i, ContextSlot { id: slots[i].id, in_flight: (slots[i].in_flight - 1) as u64, closing: slots[i].closing })
    }
}

/// `drop_context(id)` destroys the context at once: it is open with no
/// dispatch in flight.
pub open spec fn drop_frees(slots: Seq<ContextSlot>, id: Seq<char>) -> bool {
    is_open(slots, id) && slots[slot_index(slots, id)].in_flight == 0
}

/// The slots after `drop_context(id)`: an idle context goes, a busy one is
/// marked closing, anything else is left alone.
pub open spec fn drop_next(slots: Seq<ContextSlot>, id: Seq<char>) -> Seq<ContextSlot> {
    let i = slot_index(slots, id);
    if !is_open(slots, id) {
        slots
    } else if slots[i].in_flight == 0 {
        slots.remove(i)
    } else {
        slots.update(i, ContextSlot { id: slots[i].id, in_flight: slots[i].in_flight, closing: true })
    }
}

impl ContextRegistry {
    pub open spec fn wf(&self) -> bool {
        registry_wf(self.slots@, self.capacity as nat)
    }

    /// An empty registry that holds at most `capacity` contexts.
    pub fn new(capacity: usize) -> (r: ContextRegistry)
        ensures
            r.wf(),
            r.slots@ == Seq::<ContextSlot>::empty(),
            r.capacity == capacity,
    {
        ContextRegistry { slots: Vec::new(), capacity }
    }

    fn find(&self, id: &String) -> (r: Option<usize>)
        requires
            self.wf(),
        ensures
            match r {
                Some(i) => is_known(self.slots@, id@) && i == slot_index(self.slots@, id@),
                None => !is_known(self.slots@, id@),
            },
    {
        let mut i: usize = 0;
        while i < self.slots.len()
            invariant
                self.wf(),
                0 <= i <= self.slots@.len(),
                forall|j: int| 0 <= j < i ==> (#[trigger] self.slots@[j]).id@ != id@,
            decreases self.slots@.len() - i,
        {
            if self.slots[i].id.eq(id) {
                proof {
                    assert(slot_is(self.slots@, id@, i as int));
                    let k = slot_index(self.slots@, id@);
                    assert(slot_is(self.slots@, id@, k));
                    assert(self.slots@[k].id@ == self.slots@[i as int].id@);
                }
                return Some(i);
            }
            i = i + 1;
        }
        proof {
            assert forall|k: int| !slot_is(self.slots@, id@, k) by {
                if 0 <= k < self.slots@.len() {
                    assert(self.slots@[k].id@ != id@);
                }
            }
        }
        None
    }

    /// Registers a new context `id`. Fails with `ContextAlreadyExists` when
    /// `id` is live (or still closing) or names the main realm, and with `EngineCapacityExceeded`
    /// when the registry is full.
    pub fn create_context(&mut self, id: String) -> (r: Result<(), EngineError>)
        requires
            old(self).wf(),
        ensures
            final(self).wf(),
            final(self).capacity == old(self).capacity,
            r == as_result(create_error(old(self).slots@, old(self).capacity as nat, id@)),
            final(self).slots@ == create_next(old(self).slots@, old(self).capacity as nat, id),
    {
        if id.eq(&String::from_str(MAIN_REALM_ID)) {
            return Err(EngineError::ContextAlreadyExists);
        }
        match self.find(&id) {
            Some(_) => Err(EngineError::ContextAlreadyExists),
            None => {
                if self.slots.len() >= self.capacity {
                    Err(EngineError::EngineCapacityExceeded)
                } else {
                    let ghost id_view = id@;
                    self.slots.push(ContextSlot { id, in_flight: 0, closing: false });
                    proof {
                        let s = self.slots@;
                        assert forall|i: int, j: int|
                            0 <= i < s.len() && 0 <= j < s.len() && i != j implies #[trigger] s[i].id@ != #[trigger] s[j].id@ by {
                            if i == s.len() - 1 {
                                assert(!slot_is(old(self).slots@, id_view, j));
                            } else if j == s.len() - 1 {
                                assert(!slot_is(old(self).slots@, id_view, i));
                            }
                        }
                    }
                    Ok(())
                }
            },
        }
    }

    /// Takes a reference on context `id` for one dispatch. Fails with
    /// `ContextNotFound` when `id` was never created or was dropped (the
    /// dispatch must then not run), and with `DispatchRejected` when the
    /// count cannot grow.
    pub fn begin_dispatch(&mut self, id: &String) -> (r: Result<(), EngineError>)
        requires
            old(self).wf(),
        ensures
            final(self).wf(),
            final(self).capacity == old(self).capacity,
            r == as_result(begin_error(old(self).slots@, id@)),
            final(self).slots@ == begin_next(old(self).slots@, id@),
    {
        match self.find(id) {
            None => Err(EngineError::ContextNotFound),
            Some(i) => {
                if self.slots[i].closing {
                    Err(EngineError::ContextNotFound)
                } else if self.slots[i].in_flight == u64::MAX {
                    Err(EngineError::DispatchRejected)
                } else {
                    let n = self.slots[i].in_flight;
                    self.slots[i].in_flight = n + 1;
                    proof {
                        assert(self.slots@ =~= begin_next(old(self).slots@, id@));
                    }
                    Ok(())
                }
            },
        }
    }

    /// Releases the reference that a finished dispatch held on `id`. Returns
    /// true when the context was dropped meanwhile and this was its last
    /// dispatch: the caller then destroys it.
    pub fn end_dispatch(&mut self, id: &String) -> (freed: bool)
        requires
            old(self).wf(),
        ensures
            final(self).wf(),
            final(self).capacity == old(self).capacity,
            freed == end_frees(old(self).slots@, id@),
            final(self).slots@ == end_next(old(self).slots@, id@),
    {
        match self.find(id) {
            None => false,
            Some(i) => {
                let n = self.slots[i].in_flight;
                if n == 0 {
                    false
                } else if n == 1 && self.slots[i].closing {
                    let _gone = self.slots.remove(i);
                    proof {
                        assert(self.slots@ =~= end_next(old(self).slots@, id@));
                        assert forall|a: int, b: int|
                            0 <= a < self.slots@.len() && 0 <= b < self.slots@.len() && a != b
                            implies #[trigger] self.slots@[a].id@ != #[trigger] self.slots@[b].id@ by {
                            let oa = if a < i { a } else { a + 1 };
                            let ob = if b < i { b } else { b + 1 };
                            assert(old(self).slots@[oa].id@ != old(self).slots@[ob].id@);
                        }
                        assert forall|a: int| 0 <= a < self.slots@.len() && #[trigger] self.slots@[a].closing
                            implies self.slots@[a].in_flight > 0 by {
                            let oa = if a < i { a } else { a + 1 };
                            assert(old(self).slots@[oa].closing);
                        }
                    }
                    true
                } else {
                    self.slots[i].in_flight = n - 1;
                    proof {
                        assert(self.slots@ =~= end_next(old(self).slots@, id@));
                    }
                    false
                }
            },
        }
    }

    /// Drops context `id`. An idle context is removed and true is returned:
    /// the caller destroys it now. A context with dispatches in flight is
    /// marked closing (no new dispatch reaches it) and is destroyed when the
    /// last one ends. An unknown or already dropped id is left alone.
    pub fn drop_context(&mut self, id: &String) -> (freed: bool)
        requires
            old(self).wf(),
        ensures
            final(self).wf(),
            final(self).capacity == old(self).capacity,
            freed == drop_frees(old(self).slots@, id@),
            final(self).slots@ == drop_next(old(self).slots@, id@),
    {
        match self.find(id) {
            None => false,
            Some(i) => {
                if self.slots[i].closing {
                    false
                } else if self.slots[i].in_flight == 0 {
                    let _gone = self.slots.remove(i);
                    proof {
                        assert(self.slots@ =~= drop_next(old(self).slots@, id@));
                        assert forall|a: int, b: int|
                            0 <= a < self.slots@.len() && 0 <= b < self.slots@.len() && a != b
                            implies #[trigger] self.slots@[a].id@ != #[trigger] self.slots@[b].id@ by {
                            let oa = if a < i { a } else { a + 1 };
                            let ob = if b < i { b } else { b + 1 };
                            assert(old(self).slots@[oa].id@ != old(self).slots@[ob].id@);
                        }
                        assert forall|a: int| 0 <= a < self.slots@.len() && #[trigger] self.slots@[a].closing
                            implies self.slots@[a].in_flight > 0 by {
                            let oa = if a < i { a } else { a + 1 };
                            assert(old(self).slots@[oa].closing);
                        }
                    }
                    true
                } else {
                    self.slots[i].closing = true;
                    proof {
                        assert(self.slots@ =~= drop_next(old(self).slots@, id@));
                    }
                    false
                }
            },
        }
    }
}

/// Creating the same id twice in a row fails the second time with
/// `ContextAlreadyExists` (unless the first call found the registry full).
pub proof fn lemma_create_twice(slots: Seq<ContextSlot>, capacity: nat, id: String)
    requires
        registry_wf(slots, capacity),
        is_known(slots, id@) || slots.len() < capacity,
    ensures
        create_error(create_next(slots, capacity, id), capacity, id@) == Some(EngineError::ContextAlreadyExists),
{
    if !is_known(slots, id@) && id@ != MAIN_REALM_ID@ {
        let after = create_next(slots, capacity, id);
        assert(slot_is(after, id@, slots.len() as int));
    }
}

/// A dispatch against an id that was never created is refused with
/// `ContextNotFound` and changes nothing, so its task never runs.
pub proof fn lemma_dispatch_unknown(slots: Seq<ContextSlot>, id: Seq<char>)
    requires
        !is_known(slots, id),
    ensures
        begin_error(slots, id) == Some(EngineError::ContextNotFound),
        begin_next(slots, id) == slots,
{
}

/// Once a context is dropped, a dispatch against it is refused with
/// `ContextNotFound` and changes nothing, so its task never runs.
pub proof fn lemma_dispatch_after_drop(slots: Seq<ContextSlot>, capacity: nat, id: Seq<char>)
    requires
        registry_wf(slots, capacity),
    ensures
        begin_error(drop_next(slots, id), id) == Some(EngineError::ContextNotFound),
        begin_next(drop_next(slots, id), id) == drop_next(slots, id),
{
    let after = drop_next(slots, id);
    if is_open(slots, id) {
        let i = slot_index(slots, id);
        assert(slot_is(slots, id, i));
        if slots[i].in_flight == 0 {
            assert forall|k: int| !slot_is(after, id, k) by {
                if 0 <= k < after.len() {
                    let ok = if k < i { k } else { k + 1 };
                    assert(slots[ok].id@ != slots[i].id@);
                }
            }
        } else {
            assert(slot_is(after, id, i));
            let j = slot_index(after, id);
            assert(slot_is(after, id, j));
            if j != i {
                assert(slots[j].id@ != slots[i].id@);
            }
        }
    }
}

} // verus!
