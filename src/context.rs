use vstd::prelude::*;
use std::sync::Arc;
use quickjs_runtime::facades::QuickJsRuntimeFacade;
use crate::error::{EngineError, ScriptError};
use crate::registry::{
    ContextRegistry, ContextSlot, create_error, create_next, begin_error, begin_next, end_frees,
    end_next, drop_frees, drop_next, is_known, slot_is, slot_index, registry_wf, MAIN_REALM_ID,
};

verus! {

#[verifier::external_type_specification]
#[verifier::external_body]
pub struct ExQuickJsRuntimeFacade(QuickJsRuntimeFacade);

/// The shared engine instance, with a model of the ids of the realms in its
/// table. Only the wrappers below touch that model, each as the engine
/// changes its table; what the table held before the manager took the
/// engine over is known only through `engine_has_context`.
pub struct EngineRealms {
    rt: Arc<QuickJsRuntimeFacade>,
    held: Ghost<Set<Seq<char>>>,
}

/// Takes over a built engine. Relies on `QuickJsRuntimeAdapter::new`, run by
/// `QuickJsRuntimeBuilder::build`: every engine holds its main realm
/// `__main__`; runtime init hooks may have added others.
#[verifier::external_body]
fn start_engine(rt: QuickJsRuntimeFacade) -> (e: EngineRealms)
    ensures
        e.held@.contains(MAIN_REALM_ID@),
{
    EngineRealms { rt: Arc::new(rt), held: Ghost(set![MAIN_REALM_ID@]) }
}

/// Relies on `QuickJsRuntimeAdapter::has_context`, run on the engine's loop
/// by `QuickJsRuntimeFacade::exe_rt_task_in_event_loop`: whether the
/// engine's table holds realm `id`.
#[verifier::external_body]
fn engine_has_context(e: &EngineRealms, id: &str) -> (r: bool)
    ensures
        r == e.held@.contains(id@),
{
    let id = id.to_string();
    e.rt.exe_rt_task_in_event_loop(move |q_js_rt| q_js_rt.has_context(&id))
}

/// Relies on `QuickJsRuntimeFacade::create_context`: adds realm `id` to the
/// engine's table, then runs the engine's context hooks; an error comes from
/// a failing hook, whose `JsError` (name, message, stack) is handed back as
/// a `ScriptError`; the realm stays in the table either way. The engine
/// panics on an id it already holds.
#[verifier::external_body]
fn engine_create_context(e: &mut EngineRealms, id: &str) -> (r: Result<(), ScriptError>)
    requires
        !old(e).held@.contains(id@),
    ensures
        final(e).held@ == old(e).held@.insert(id@),
        final(e).rt == old(e).rt,
{
    match e.rt.create_context(id) {
        Ok(()) => Ok(()),
        Err(err) => Err(ScriptError::new(
            err.get_name().to_string(),
            err.get_message().to_string(),
            err.get_stack().to_string(),
        )),
    }
}

/// Relies on `QuickJsRuntimeFacade::drop_context`: frees realm `id` and
/// removes it from the engine's table. The engine panics on an id it does
/// not hold.
#[verifier::external_body]
fn engine_drop_context(e: &mut EngineRealms, id: &str)
    requires
        old(e).held@.contains(id@),
    ensures
        final(e).held@ == old(e).held@.remove(id@),
        final(e).rt == old(e).rt,
{
    e.rt.drop_context(id)
}

/// The realms the engine must hold for registry `slots`: the main realm and
/// every registered context, closing ones included. The engine may hold
/// more (realms made before the manager took it over).
pub open spec fn live_realms(slots: Seq<ContextSlot>) -> Set<Seq<char>> {
    Set::new(|k: Seq<char>| k == MAIN_REALM_ID@ || is_known(slots, k))
}

proof fn lemma_same_ids(a: Seq<ContextSlot>, b: Seq<ContextSlot>)
    requires
        a.len() == b.len(),
        forall|i: int| 0 <= i < a.len() ==> (#[trigger] a[i]).id == b[i].id,
    ensures
        live_realms(a) == live_realms(b),
{
    assert forall|k: Seq<char>| live_realms(a).contains(k) == live_realms(b).contains(k) by {
        if is_known(a, k) {
            let i = choose|i: int| slot_is(a, k, i);
            assert(a[i].id == b[i].id);
            assert(slot_is(b, k, i));
        }
        if is_known(b, k) {
            let i = choose|i: int| slot_is(b, k, i);
            assert(a[i].id == b[i].id);
            assert(slot_is(a, k, i));
        }
    }
    assert(live_realms(a) =~= live_realms(b));
}

proof fn lemma_remove_slot(slots: Seq<ContextSlot>, capacity: nat, id: Seq<char>)
    requires
        registry_wf(slots, capacity),
        is_known(slots, id),
    ensures
        live_realms(slots.remove(slot_index(slots, id))) == live_realms(slots).remove(id),
{
    let i = slot_index(slots, id);
    assert(slot_is(slots, id, i));
    assert(slots[i].id@ != MAIN_REALM_ID@);
    let r = slots.remove(i);
    assert forall|k: Seq<char>| live_realms(r).contains(k) == live_realms(slots).remove(id).contains(k) by {
        if is_known(r, k) {
            let j = choose|j: int| slot_is(r, k, j);
            let oj = if j < i { j } else { j + 1 };
            assert(r[j] == slots[oj]);
            assert(slot_is(slots, k, oj));
            if k == id {
                assert(slots[oj].id@ != slots[i].id@);
            }
        }
        if k != id && k != MAIN_REALM_ID@ && is_known(slots, k) {
            let j = choose|j: int| slot_is(slots, k, j);
            let rj = if j < i { j } else { j - 1 };
            assert(j != i);
            assert(r[rj] == slots[j]);
            assert(slot_is(r, k, rj));
        }
    }
    assert(live_realms(r) =~= live_realms(slots).remove(id));
}

/// The context lifecycle of one engine instance. Every realm the engine
/// holds besides its main realm is created and destroyed here, under the
/// registry's reference counts: a realm is destroyed only once no dispatch
/// against it is in flight, and the engine is never asked to create an id it
/// holds or to drop one it does not.
pub struct ContextManager {
    registry: ContextRegistry,
    engine: EngineRealms,
}

impl ContextManager {
    /// The registry's slots.
    pub closed spec fn slots(&self) -> Seq<ContextSlot> {
        self.registry.slots@
    }

    /// The most contexts the manager holds at once.
    pub closed spec fn capacity(&self) -> nat {
        self.registry.capacity as nat
    }

    /// The ids of the realms the engine holds.
    pub closed spec fn realms(&self) -> Set<Seq<char>> {
        self.engine.held@
    }

    pub open spec fn wf(&self) -> bool {
        &&& registry_wf(self.slots(), self.capacity())
        &&& live_realms(self.slots()).subset_of(self.realms())
    }

    /// Takes over the built engine `rt` and manages its realms, at most
    /// `capacity` besides those it already holds.
    pub fn new(rt: QuickJsRuntimeFacade, capacity: usize) -> (r: ContextManager)
        ensures
            r.wf(),
            r.slots() == Seq::<ContextSlot>::empty(),
            r.capacity() == capacity,
            r.realms().contains(MAIN_REALM_ID@),
    {
        let engine = start_engine(rt);
        let r = ContextManager { registry: ContextRegistry::new(capacity), engine };
        assert(live_realms(r.registry.slots@) =~= set![MAIN_REALM_ID@]);
        r
    }

    /// The engine instance, for dispatching work to realms that
    /// `begin_dispatch` admitted. Realms must not be created or dropped
    /// through it: that goes through this manager only.
    pub fn runtime(&self) -> &Arc<QuickJsRuntimeFacade> {
        &self.engine.rt
    }

    /// Creates realm `id`. Fails with `ContextAlreadyExists` when `id` is
    /// live, names the main realm, or is a realm the engine already held;
    /// with `EngineCapacityExceeded` when the registry is full; with the
    /// engine's `ScriptEvaluationError` when its context hook fails. A failed
    /// call leaves the set of contexts as it was.
    pub fn create_context(&mut self, id: String) -> (r: Result<(), EngineError>)
        requires
            old(self).wf(),
        ensures
            final(self).wf(),
            final(self).capacity() == old(self).capacity(),
            match create_error(old(self).slots(), old(self).capacity(), id@) {
                Some(e) => r == Err::<(), EngineError>(e) && final(self).slots() == old(self).slots(),
                None => if old(self).realms().contains(id@) {
                    r == Err::<(), EngineError>(EngineError::ContextAlreadyExists)
                        && final(self).slots() == old(self).slots()
                } else {
                    (r is Ok && final(self).slots() == create_next(old(self).slots(), old(self).capacity(), id))
                        || (r matches Err(EngineError::ScriptEvaluationError(_))
                            && final(self).slots() == old(self).slots())
                },
            },
    {
        let ghost before = self.slots();
        let key = id.clone();
        match self.registry.create_context(id) {
            Err(e) => Err(e),
            Ok(()) => {
                let s = Ghost(self.registry.slots@);
                proof {
                    assert(!is_known(before, key@));
                    assert(s@ =~= before.push(s@.last()));
                    assert(live_realms(s@) =~= live_realms(before).insert(key@)) by {
                        assert forall|k: Seq<char>| #[trigger] live_realms(s@).contains(k) == live_realms(before).insert(key@).contains(k) by {
                            if is_known(s@, k) {
                                let j = choose|j: int| slot_is(s@, k, j);
                                if j < before.len() {
                                    assert(slot_is(before, k, j));
                                }
                            }
                            if is_known(before, k) {
                                let j = choose|j: int| slot_is(before, k, j);
                                assert(slot_is(s@, k, j));
                            }
                            if k == key@ {
                                assert(slot_is(s@, k, before.len() as int));
                            }
                        }
                    }
                    assert(s@.drop_last() =~= before);
                }
                let held = engine_has_context(&self.engine, key.as_str());
                if held {
                    self.withdraw(&key);
                    return Err(EngineError::ContextAlreadyExists);
                }
                let answer = engine_create_context(&mut self.engine, key.as_str());
                self.finish_create(&key, answer)
            },
        }
    }

    /// Removes `id`, just registered as the last slot, from the registry
    /// again, leaving the engine alone.
    fn withdraw(&mut self, id: &String)
        requires
            registry_wf(old(self).slots(), old(self).capacity()),
            live_realms(old(self).slots().drop_last()).subset_of(old(self).realms()),
            old(self).slots().len() > 0,
            old(self).slots().last().id@ == id@,
            old(self).slots().last().in_flight == 0,
            !old(self).slots().last().closing,
        ensures
            final(self).wf(),
            final(self).capacity() == old(self).capacity(),
            final(self).slots() == old(self).slots().drop_last(),
            final(self).realms() == old(self).realms(),
    {
        let ghost s = self.registry.slots@;
        proof {
            let n = s.len() - 1;
            assert(slot_is(s, id@, n));
            let k = slot_index(s, id@);
            assert(slot_is(s, id@, k));
            if k != n {
                assert(s[k].id@ != s[n].id@);
            }
            assert(s.remove(n) =~= s.drop_last());
        }
        let _freed = self.registry.drop_context(id);
    }

    /// Completes the creation of `id`, just registered as the last slot and
    /// just added to the engine, on the engine's answer: on success the
    /// context stays; on a failed hook the realm is dropped from the engine,
    /// the slot is removed, and the hook's error is returned.
    fn finish_create(&mut self, id: &String, answer: Result<(), ScriptError>) -> (r: Result<(), EngineError>)
        requires
            old(self).wf(),
            old(self).slots().len() > 0,
            old(self).slots().last().id@ == id@,
            old(self).slots().last().in_flight == 0,
            !old(self).slots().last().closing,
        ensures
            final(self).wf(),
            final(self).capacity() == old(self).capacity(),
            match answer {
                Ok(()) => r is Ok && final(self).slots() == old(self).slots()
                    && final(self).realms() == old(self).realms(),
                Err(e) => r == Err::<(), EngineError>(EngineError::ScriptEvaluationError(e))
                    && final(self).slots() == old(self).slots().drop_last()
                    && final(self).realms() == old(self).realms().remove(id@),
            },
    {
        match answer {
            Ok(()) => Ok(()),
            Err(e) => {
                let ghost s = self.registry.slots@;
                proof {
                    let n = s.len() - 1;
                    assert(slot_is(s, id@, n));
                    let k = slot_index(s, id@);
                    assert(slot_is(s, id@, k));
                    if k != n {
                        assert(s[k].id@ != s[n].id@);
                    }
                    assert(s.remove(n) =~= s.drop_last());
                    lemma_remove_slot(s, self.registry.capacity as nat, id@);
                    assert(live_realms(s).contains(id@));
                }
                engine_drop_context(&mut self.engine, id.as_str());
                let _freed = self.registry.drop_context(id);
                Err(EngineError::ScriptEvaluationError(e))
            },
        }
    }

    /// Takes a reference on `id` for one dispatch; see
    /// `ContextRegistry::begin_dispatch`. On an error the dispatch must not
    /// run.
    pub fn begin_dispatch(&mut self, id: &String) -> (r: Result<(), EngineError>)
        requires
            old(self).wf(),
        ensures
            final(self).wf(),
            final(self).capacity() == old(self).capacity(),
            final(self).realms() == old(self).realms(),
            r == crate::registry::as_result(begin_error(old(self).slots(), id@)),
            final(self).slots() == begin_next(old(self).slots(), id@),
    {
        let ghost s = self.registry.slots@;
        let r = self.registry.begin_dispatch(id);
        proof {
            lemma_same_ids(s, self.registry.slots@);
        }
        r
    }

    /// Releases a finished dispatch's reference on `id`. When `id` was
    /// dropped meanwhile and this was its last dispatch, the realm is
    /// destroyed in the engine and true is returned.
    pub fn end_dispatch(&mut self, id: &String) -> (freed: bool)
        requires
            old(self).wf(),
        ensures
            final(self).wf(),
            final(self).capacity() == old(self).capacity(),
            freed == end_frees(old(self).slots(), id@),
            final(self).slots() == end_next(old(self).slots(), id@),
            final(self).realms() == (if freed { old(self).realms().remove(id@) } else { old(self).realms() }),
    {
        let ghost s = self.registry.slots@;
        let freed = self.registry.end_dispatch(id);
        proof {
            if freed {
                lemma_remove_slot(s, self.registry.capacity as nat, id@);
                assert(slot_is(s, id@, slot_index(s, id@)));
            } else {
                lemma_same_ids(s, self.registry.slots@);
            }
        }
        if freed {
            engine_drop_context(&mut self.engine, id.as_str());
        }
        freed
    }

    /// Drops `id`: an idle realm is destroyed in the engine now (true is
    /// returned), a busy one when its last dispatch ends; an unknown id, or
    /// the main realm, is left alone.
    pub fn drop_context(&mut self, id: &String) -> (freed: bool)
        requires
            old(self).wf(),
        ensures
            final(self).wf(),
            final(self).capacity() == old(self).capacity(),
            freed == drop_frees(old(self).slots(), id@),
            final(self).slots() == drop_next(old(self).slots(), id@),
            final(self).realms() == (if freed { old(self).realms().remove(id@) } else { old(self).realms() }),
    {
        let ghost s = self.registry.slots@;
        let freed = self.registry.drop_context(id);
        proof {
            if freed {
                lemma_remove_slot(s, self.registry.capacity as nat, id@);
                assert(slot_is(s, id@, slot_index(s, id@)));
            } else {
                lemma_same_ids(s, self.registry.slots@);
            }
        }
        if freed {
            engine_drop_context(&mut self.engine, id.as_str());
        }
        freed
    }
}

} // verus!
