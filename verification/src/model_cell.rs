//! The daemon's live model slot: one model at a time, changeable while the
//! daemon keeps serving.
//!
//! Readers take a snapshot and never a borrow, so that a request keeps talking
//! to the model that it was admitted against. Loads and unloads take the one
//! right to change the slot, so that halves of two changes never mix.

use vstd::pervasive::cloned;
use vstd::prelude::*;

use crate::protocol::optional_text;
use crate::text::concat2;

verus! {

/// One model that the daemon holds, and the service in front of it.
pub struct LoadedModelService<S> {
    pub key: String,
    pub size_bytes: u64,
    pub service: S,
}

#[derive(Clone, Copy, Debug, PartialEq, Eq, Structural)]
pub enum ModelTransitionPhase {
    Loading,
    Unloading,
}

/// A change of the slot that is under way.
pub struct ModelTransition {
    pub phase: ModelTransitionPhase,
    pub model: String,
}

/// A snapshot of the slot.
pub struct ModelSurface<S> {
    pub loaded: Option<LoadedModelService<S>>,
    pub load_failure: Option<String>,
    pub transition: Option<ModelTransition>,
}

/// The slot of a daemon whose model failed to load at the start: it serves
/// without one, and says why.
pub fn degrade_after_model_load_failure<S>(error: &str) -> (surface: ModelSurface<S>)
    ensures
        surface.loaded is None,
        surface.transition is None,
        optional_text(surface.load_failure) == Some(
            "model load failed; the daemon will serve without a model: "@ + error@,
        ),
{
    ModelSurface {
        loaded: None,
        load_failure: Some(
            concat2("model load failed; the daemon will serve without a model: ", error),
        ),
        transition: None,
    }
}

/// The right to change the slot. The slot gives out one at a time.
pub struct TransitionGuard {
    granted: bool,
}

/// A model that was taken out of the slot and is still to be drained.
pub struct Retired<S, W> {
    pub loaded: LoadedModelService<S>,
    pub worker: Option<W>,
}

impl<S, W> Retired<S, W> {
    pub fn key(&self) -> (key: &str)
        ensures
            key@ == self.loaded.key@,
    {
        self.loaded.key.as_str()
    }

    pub fn size_bytes(&self) -> (size: u64)
        ensures
            size == self.loaded.size_bytes,
    {
        self.loaded.size_bytes
    }
}

/// What a slot holds, apart from its handles.
pub ghost struct Slot {
    /// The identity and size of the model.
    pub loaded: Option<(Seq<char>, u64)>,
    pub has_worker: bool,
    pub load_failure: Option<Seq<char>>,
    pub transition: Option<(ModelTransitionPhase, Seq<char>)>,
    /// The right to change the slot is given out.
    pub changing: bool,
}

/// The slot while its model is drained, if it has one.
pub open spec fn unloading(slot: Slot) -> Slot {
    match slot.loaded {
        Some((key, _)) => Slot {
            loaded: None,
            has_worker: false,
            load_failure: slot.load_failure,
            transition: Some((ModelTransitionPhase::Unloading, key)),
            changing: slot.changing,
        },
        None => slot,
    }
}

/// The slot after an unload. What an earlier load could not do no longer
/// explains why it is empty.
pub open spec fn unloaded(slot: Slot) -> Slot {
    Slot { load_failure: None, transition: None, ..slot }
}

/// The slot while a model is loaded.
pub open spec fn loading(slot: Slot, key: Seq<char>) -> Slot {
    Slot { load_failure: None, transition: Some((ModelTransitionPhase::Loading, key)), ..slot }
}

/// The slot with a model that came up.
pub open spec fn seated(slot: Slot, key: Seq<char>, size_bytes: u64, has_worker: bool) -> Slot {
    Slot {
        loaded: Some((key, size_bytes)),
        has_worker,
        load_failure: None,
        transition: None,
        changing: slot.changing,
    }
}

/// The slot after a load that failed.
pub open spec fn load_failed(slot: Slot, reason: Seq<char>) -> Slot {
    Slot {
        loaded: None,
        has_worker: false,
        load_failure: Some(reason),
        transition: None,
        changing: slot.changing,
    }
}

/// The identity and size of a model.
pub open spec fn identity_of<S>(loaded: Option<LoadedModelService<S>>) -> Option<
    (Seq<char>, u64),
> {
    match loaded {
        Some(model) => Some((model.key@, model.size_bytes)),
        None => None,
    }
}

pub open spec fn transition_of(transition: Option<ModelTransition>) -> Option<
    (ModelTransitionPhase, Seq<char>),
> {
    match transition {
        Some(change) => Some((change.phase, change.model@)),
        None => None,
    }
}

/// The slot that request handlers read and the load and unload handlers write.
pub struct ModelCell<S, W> {
    loaded: Option<LoadedModelService<S>>,
    worker: Option<W>,
    load_failure: Option<String>,
    transition: Option<ModelTransition>,
    changing: bool,
}

impl<S: Clone, W> ModelCell<S, W> {
    pub closed spec fn loaded(self) -> Option<LoadedModelService<S>> {
        self.loaded
    }

    pub closed spec fn worker(self) -> Option<W> {
        self.worker
    }

    /// What the slot holds.
    pub closed spec fn slot(self) -> Slot {
        Slot {
            loaded: identity_of(self.loaded),
            has_worker: self.worker is Some,
            load_failure: optional_text(self.load_failure),
            transition: transition_of(self.transition),
            changing: self.changing,
        }
    }

    /// The slot that a daemon starts with. A daemon whose model failed to load
    /// reports the reason until something replaces it.
    pub fn new(surface: ModelSurface<S>, worker: Option<W>) -> (cell: Self)
        ensures
            cell.loaded() == surface.loaded,
            cell.worker() == worker,
            cell.slot() == (Slot {
                loaded: identity_of(surface.loaded),
                has_worker: worker is Some,
                load_failure: optional_text(surface.load_failure),
                transition: None,
                changing: false,
            }),
    {
        ModelCell {
            loaded: surface.loaded,
            worker,
            load_failure: surface.load_failure,
            transition: None,
            changing: false,
        }
    }

    /// The present state, copied out.
    pub fn surface(&self) -> (surface: ModelSurface<S>)
        ensures
            identity_of(surface.loaded) == self.slot().loaded,
            optional_text(surface.load_failure) == self.slot().load_failure,
            transition_of(surface.transition) == self.slot().transition,
            match (surface.loaded, self.loaded()) {
                (Some(copy), Some(held)) => cloned(held.service, copy.service),
                (None, None) => true,
                _ => false,
            },
    {
        let loaded = match &self.loaded {
            Some(model) => Some(
                LoadedModelService {
                    key: model.key.clone(),
                    size_bytes: model.size_bytes,
                    service: model.service.clone(),
                },
            ),
            None => None,
        };
        let load_failure = match &self.load_failure {
            Some(reason) => Some(reason.clone()),
            None => None,
        };
        let transition = match &self.transition {
            Some(change) => Some(
                ModelTransition { phase: change.phase, model: change.model.clone() },
            ),
            None => None,
        };
        ModelSurface { loaded, load_failure, transition }
    }

    /// The identity of the loaded model.
    pub fn loaded_key(&self) -> (key: Option<String>)
        ensures
            optional_text(key) == (match self.slot().loaded {
                Some((held, _)) => Some(held),
                None => None,
            }),
    {
        match &self.loaded {
            Some(model) => Some(model.key.clone()),
            None => None,
        }
    }

    /// Claims the right to change the slot. It is refused at once where another
    /// change holds it.
    pub fn begin_transition(&mut self) -> (guard: Option<TransitionGuard>)
        ensures
            guard is Some <==> !old(self).slot().changing,
            final(self).slot() == (Slot { changing: true, ..old(self).slot() }),
            final(self).loaded() == old(self).loaded(),
            final(self).worker() == old(self).worker(),
    {
        if self.changing {
            None
        } else {
            self.changing = true;
            Some(TransitionGuard { granted: true })
        }
    }

    /// Gives the right to change the slot back.
    pub fn end_transition(&mut self, guard: TransitionGuard)
        ensures
            final(self).slot() == (Slot { changing: false, ..old(self).slot() }),
            final(self).loaded() == old(self).loaded(),
            final(self).worker() == old(self).worker(),
    {
        self.changing = false;
    }

    /// Takes the model out of the slot. From now on nothing is loaded, and
    /// whoever gets the model drains it.
    pub fn begin_unload(&mut self, guard: &TransitionGuard) -> (retired: Option<Retired<S, W>>)
        ensures
            final(self).slot() == unloading(old(self).slot()),
            match retired {
                Some(taken) => {
                    &&& old(self).loaded() == Some(taken.loaded)
                    &&& taken.worker == old(self).worker()
                    &&& final(self).loaded() is None
                    &&& final(self).worker() is None
                },
                None => {
                    &&& old(self).loaded() is None
                    &&& final(self).loaded() is None
                    &&& final(self).worker() == old(self).worker()
                },
            },
    {
        match self.loaded.take() {
            Some(loaded) => {
                let worker = self.worker.take();
                self.transition = Some(
                    ModelTransition {
                        phase: ModelTransitionPhase::Unloading,
                        model: loaded.key.clone(),
                    },
                );
                Some(Retired { loaded, worker })
            },
            None => None,
        }
    }

    /// Settles the slot after an unload.
    pub fn finish_unload(&mut self, guard: &TransitionGuard)
        ensures
            final(self).slot() == unloaded(old(self).slot()),
            final(self).loaded() == old(self).loaded(),
            final(self).worker() == old(self).worker(),
    {
        self.transition = None;
        self.load_failure = None;
    }

    /// Announces a load.
    pub fn begin_load(&mut self, guard: &TransitionGuard, key: &str)
        ensures
            final(self).slot() == loading(old(self).slot(), key@),
            final(self).loaded() == old(self).loaded(),
            final(self).worker() == old(self).worker(),
    {
        self.load_failure = None;
        self.transition = Some(
            ModelTransition { phase: ModelTransitionPhase::Loading, model: key.to_owned() },
        );
    }

    /// Seats a model that came up.
    pub fn finish_load(
        &mut self,
        guard: &TransitionGuard,
        loaded: LoadedModelService<S>,
        worker: Option<W>,
    )
        ensures
            final(self).slot() == seated(
                old(self).slot(),
                loaded.key@,
                loaded.size_bytes,
                worker is Some,
            ),
            final(self).loaded() == Some(loaded),
            final(self).worker() == worker,
    {
        self.loaded = Some(loaded);
        self.worker = worker;
        self.load_failure = None;
        self.transition = None;
    }

    /// Records a load that failed. The daemon goes on without a model, and says
    /// why.
    pub fn fail_load(&mut self, guard: &TransitionGuard, reason: String)
        ensures
            final(self).slot() == load_failed(old(self).slot(), reason@),
            final(self).loaded() is None,
            final(self).worker() is None,
    {
        self.loaded = None;
        self.worker = None;
        self.load_failure = Some(reason);
        self.transition = None;
    }

    /// Takes the worker out of the slot, to be shut down with the daemon.
    pub fn take_worker(&mut self) -> (worker: Option<W>)
        ensures
            worker == old(self).worker(),
            final(self).worker() is None,
            final(self).loaded() == old(self).loaded(),
            final(self).slot() == (Slot { has_worker: false, ..old(self).slot() }),
    {
        self.worker.take()
    }
}

/// A change of a slot, as its holder may make one.
pub ghost enum Change {
    BeginUnload,
    FinishUnload,
    BeginLoad(Seq<char>),
    FinishLoad { key: Seq<char>, size_bytes: u64, has_worker: bool },
    FailLoad(Seq<char>),
    TakeWorker,
}

pub open spec fn changed(slot: Slot, change: Change) -> Slot {
    match change {
        Change::BeginUnload => unloading(slot),
        Change::FinishUnload => unloaded(slot),
        Change::BeginLoad(key) => loading(slot, key),
        Change::FinishLoad { key, size_bytes, has_worker } => seated(
            slot,
            key,
            size_bytes,
            has_worker,
        ),
        Change::FailLoad(reason) => load_failed(slot, reason),
        Change::TakeWorker => Slot { has_worker: false, ..slot },
    }
}

/// No worker runs without its model in the slot: none is left behind.
pub open spec fn no_orphan(slot: Slot) -> bool {
    slot.has_worker ==> slot.loaded is Some
}

/// Whatever is done to a slot, no worker is left behind in it.
pub proof fn law_no_worker_is_left_behind(slot: Slot, change: Change)
    requires
        no_orphan(slot),
    ensures
        no_orphan(changed(slot, change)),
{
}

/// A swap drains before it loads: from the start of the unload to the end of
/// the load the slot holds no model, and it ends with the new one.
pub proof fn law_swaps_hold_one_model(slot: Slot, key: Seq<char>, size_bytes: u64, has_worker: bool)
    requires
        slot.loaded is Some,
    ensures
        unloading(slot).loaded is None,
        !unloading(slot).has_worker,
        loading(unloading(slot), key).loaded is None,
        !loading(unloading(slot), key).has_worker,
        seated(loading(unloading(slot), key), key, size_bytes, has_worker).loaded == Some(
            (key, size_bytes),
        ),
        seated(loading(unloading(slot), key), key, size_bytes, has_worker).transition is None,
{
}

/// After a failed load nothing is loaded and the reason stays on the surface
/// until a load or an unload begins or ends anew.
pub proof fn law_failed_loads_are_explained(slot: Slot, reason: Seq<char>, key: Seq<char>)
    ensures
        load_failed(slot, reason).loaded is None,
        load_failed(slot, reason).transition is None,
        load_failed(slot, reason).load_failure == Some(reason),
        unloading(load_failed(slot, reason)) == load_failed(slot, reason),
        unloaded(load_failed(slot, reason)).load_failure is None,
        loading(load_failed(slot, reason), key).load_failure is None,
{
}

/// A slot holds the model that came up last, until it is drained or a load fails;
/// its worker comes and goes with it. The announcement of a change names the
/// model that comes or goes and is over with the change. A failure is told
/// from the load that failed to the next one or to the end of an unload. The
/// right to change the slot is none of this.
pub proof fn law_slots_show_what_was_done(slot: Slot, change: Change)
    ensures
        ({
            let after = changed(slot, change);
            &&& after.loaded == match change {
                Change::FinishLoad { key, size_bytes, .. } => Some((key, size_bytes)),
                Change::BeginUnload | Change::FailLoad(_) => None,
                _ => slot.loaded,
            }
            &&& after.has_worker <==> match change {
                Change::FinishLoad { has_worker, .. } => has_worker,
                Change::BeginUnload => slot.has_worker && slot.loaded is None,
                Change::FailLoad(_) | Change::TakeWorker => false,
                _ => slot.has_worker,
            }
            &&& after.load_failure == match change {
                Change::FailLoad(reason) => Some(reason),
                Change::BeginUnload | Change::TakeWorker => slot.load_failure,
                _ => None,
            }
            &&& (change matches Change::BeginLoad(key) ==> after.transition == Some(
                (ModelTransitionPhase::Loading, key),
            ))
            &&& (change is BeginUnload ==> match slot.loaded {
                Some((key, _)) => after.transition == Some((ModelTransitionPhase::Unloading, key)),
                None => after.transition == slot.transition,
            })
            &&& (change is FinishUnload || change is FinishLoad || change is FailLoad
                ==> after.transition is None)
            &&& (change is TakeWorker ==> after.transition == slot.transition)
            &&& after.changing == slot.changing
        }),
{
}

} // verus!
