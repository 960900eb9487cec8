//! Composition targets shared by the host and the presenter.

use vstd::prelude::*;

verus! {

/// One of the two textures that compositions are rendered into.
#[derive(Clone, Copy, Debug, PartialEq, Eq, Structural)]
pub enum CompositionTargetId {
    First,
    Second,
}

/// Picks the target that the host renders the next composition into: never
/// the one that the presentation worker is reading.
pub fn host_composition_target(worker_target: Option<CompositionTargetId>) -> (target: CompositionTargetId)
    ensures
        target == (if worker_target == Some(CompositionTargetId::First) {
            CompositionTargetId::Second
        } else {
            CompositionTargetId::First
        }),
        worker_target != Some(target),
{
    match worker_target {
        Some(CompositionTargetId::First) => CompositionTargetId::Second,
        _ => CompositionTargetId::First,
    }
}

/// The target that holds the last finished composition.
#[derive(Clone, Copy, Debug, PartialEq, Eq, Structural)]
pub struct CompositionTargets {
    pub completed: CompositionTargetId,
}

impl CompositionTargets {
    pub fn new() -> (targets: Self)
        ensures
            targets.completed == CompositionTargetId::First,
    {
        CompositionTargets { completed: CompositionTargetId::First }
    }

    /// Takes note of a composition by a host that shows it itself and so needs
    /// one target only.
    pub fn render_composition(&mut self) -> (target: CompositionTargetId)
        ensures
            target == CompositionTargetId::First,
            final(self).completed == target,
    {
        self.render_composition_to(CompositionTargetId::First);
        CompositionTargetId::First
    }

    /// Takes note of a composition in `target`.
    pub fn render_composition_to(&mut self, target: CompositionTargetId)
        ensures
            final(self).completed == target,
    {
        self.completed = target;
    }

    /// Takes note that both targets were made anew.
    pub fn resize(&mut self)
        ensures
            final(self).completed == CompositionTargetId::First,
    {
        self.completed = CompositionTargetId::First;
    }
}

/// The host composes into the first target unless the worker is reading it.
pub proof fn the_worker_keeps_its_target(
    reading: Option<CompositionTargetId>,
    target: CompositionTargetId,
)
    requires
        call_ensures(host_composition_target, (reading,), target),
    ensures
        reading != Some(target),
        reading != Some(CompositionTargetId::First) ==> target is First,
{
}

} // verus!
