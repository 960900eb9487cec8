//! The output topology diagram: when it is shown and when it is drawn anew.

use vstd::prelude::*;

use crate::number::Real32;

verus! {

/// Whether the diagram is shown, and whether what is drawn is out of date.
#[derive(Clone, Copy, Debug, PartialEq, Eq, Structural)]
pub struct OutputTopologyOverlayState {
    pub visible: bool,
    pub dirty: bool,
}

impl Default for OutputTopologyOverlayState {
    fn default() -> (state: Self)
        ensures
            !state.visible,
            !state.dirty,
    {
        OutputTopologyOverlayState { visible: false, dirty: false }
    }
}

/// What an update does to the diagram.
#[derive(Clone, Copy, Debug, PartialEq, Eq, Structural)]
pub enum OverlayStep {
    /// Leave it as it is.
    Keep,
    /// Take down what is drawn.
    Clear,
    /// Take down what is drawn and draw it anew.
    Rebuild,
}

impl OutputTopologyOverlayState {
    /// Takes in the toggles and changes of the outputs since the last update.
    /// An even number of toggles cancels out.
    pub fn begin_update(&mut self, toggles: usize, outputs_changed: bool) -> (step: OverlayStep)
        ensures
            ({
                let flips = toggles % 2 == 1;
                let visible = if flips {
                    !old(self).visible
                } else {
                    old(self).visible
                };
                &&& final(self).visible == visible
                &&& !final(self).dirty
                &&& step == (if !old(self).dirty && !flips && !outputs_changed {
                    OverlayStep::Keep
                } else if visible {
                    OverlayStep::Rebuild
                } else {
                    OverlayStep::Clear
                })
            }),
    {
        if toggles % 2 == 1 {
            self.visible = !self.visible;
            self.dirty = true;
        }
        if outputs_changed {
            self.dirty = true;
        }
        if !self.dirty {
            return OverlayStep::Keep;
        }
        self.dirty = false;
        if self.visible {
            OverlayStep::Rebuild
        } else {
            OverlayStep::Clear
        }
    }

    /// Takes note that the diagram could not be drawn: the next update tries
    /// again.
    pub fn rebuild_failed(&mut self)
        ensures
            *final(self) == (OutputTopologyOverlayState { dirty: true, ..*old(self) }),
    {
        self.dirty = true;
    }
}

/// Whether outputs that together span `width` by `height` can be drawn to scale.
pub fn topology_has_area(outputs: usize, width: Real32, height: Real32) -> (has_area: bool)
    ensures
        has_area == (outputs > 0 && !(width.not_above(Real32 { bits: 0 })) && !(height.not_above(
            Real32 { bits: 0 },
        ))),
{
    let zero = Real32::new(0);
    outputs > 0 && !width.at_most(zero) && !height.at_most(zero)
}

/// `order` lists places of `ids`, each once, by ascending id; equal ids stay in
/// the order in which they stand.
pub open spec fn in_id_order(ids: Seq<u64>, order: Seq<usize>) -> bool {
    &&& order.no_duplicates()
    &&& forall|k: int| 0 <= k < order.len() ==> (#[trigger] order[k]) < ids.len()
    &&& forall|a: int, b: int|
        0 <= a < b < order.len() ==> goes_before(
            ids,
            #[trigger] order[a] as int,
            #[trigger] order[b] as int,
        )
}

/// The id at `first` is smaller than the one at `second`, or the same and
/// stands before it.
pub open spec fn goes_before(ids: Seq<u64>, first: int, second: int) -> bool {
    ids[first] < ids[second] || (ids[first] == ids[second] && first < second)
}

/// The places of the outputs in the order in which they are drawn.
pub fn drawing_order(ids: &Vec<u64>) -> (order: Vec<usize>)
    ensures
        order@.len() == ids@.len(),
        in_id_order(ids@, order@),
{
    let mut order: Vec<usize> = Vec::new();
    let mut i: usize = 0;
    while i < ids.len()
        invariant
            i <= ids@.len(),
            order@.len() == i,
            in_id_order(ids@, order@),
            forall|k: int| 0 <= k < order@.len() ==> (#[trigger] order@[k]) < i,
        decreases ids@.len() - i,
    {
        let mut at: usize = order.len();
        while at > 0 && ids[order[at - 1]] > ids[i]
            invariant
                at <= order@.len(),
                i < ids@.len(),
                in_id_order(ids@, order@),
                forall|k: int| at <= k < order@.len() ==> ids@[#[trigger] order@[k] as int] > ids@[i as int],
            decreases at,
        {
            at = at - 1;
        }
        let ghost before = order@;
        order.insert(at, i);
        proof {
            let after = order@;
            assert(after =~= before.insert(at as int, i));
            assert(forall|k: int| 0 <= k < at ==> after[k] == before[k]);
            assert(after[at as int] == i);
            assert(forall|k: int| at < k < after.len() ==> after[k] == before[k - 1]);
            assert forall|a: int, b: int| 0 <= a < b < after.len() implies goes_before(
                ids@,
                #[trigger] after[a] as int,
                #[trigger] after[b] as int,
            ) by {
                if a < at && b < at {
                    assert(goes_before(ids@, before[a] as int, before[b] as int));
                } else if a > at {
                    assert(goes_before(ids@, before[a - 1] as int, before[b - 1] as int));
                } else if a < at && b > at {
                    assert(goes_before(ids@, before[a] as int, before[b - 1] as int));
                } else if b == at {
                    let last = before[at - 1];
                    assert(ids@[last as int] <= ids@[i as int]);
                    if a < at - 1 {
                        assert(goes_before(ids@, before[a] as int, before[at - 1] as int));
                    }
                    assert(before[a] < i);
                } else {
                    assert(ids@[before[b - 1] as int] > ids@[i as int]);
                }
            }
        }
        i = i + 1;
    }
    order
}

/// Outputs are drawn by ascending id, and those of one id as they stand. A
/// drawing order of all outputs has each of them.
pub proof fn drawing_goes_by_ascending_id(ids: Seq<u64>, order: Seq<usize>, a: int, b: int)
    requires
        in_id_order(ids, order),
        0 <= a < b < order.len(),
    ensures
        order[a] < ids.len() && order[b] < ids.len(),
        order[a] != order[b],
        ids[order[a] as int] <= ids[order[b] as int],
        ids[order[a] as int] == ids[order[b] as int] ==> order[a] < order[b],
{
    assert(goes_before(ids, order[a] as int, order[b] as int));
}

/// The diagram is shown after an odd number of toggles just if it was not shown
/// before. It is drawn anew while it is shown and taken down while it is not,
/// but only where something changed or an earlier attempt failed.
pub proof fn toggles_cancel_in_pairs(
    state: &mut OutputTopologyOverlayState,
    toggles: usize,
    outputs_changed: bool,
    step: OverlayStep,
)
    requires
        call_ensures(
            OutputTopologyOverlayState::begin_update,
            (state, toggles, outputs_changed),
            step,
        ),
    ensures
        toggles % 2 == 0 ==> final(state).visible == old(state).visible,
        toggles % 2 == 1 ==> final(state).visible != old(state).visible,
        step is Keep <==> toggles % 2 == 0 && !outputs_changed && !old(state).dirty,
        step is Rebuild ==> final(state).visible,
        step is Clear ==> !final(state).visible,
        !final(state).dirty,
{
}

} // verus!
