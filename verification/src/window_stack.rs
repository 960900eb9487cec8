//! Stacking order of application windows.

use vstd::prelude::*;

use crate::layer::{WINDOW_Z_INDEX_MAX, WINDOW_Z_INDEX_MIN};
use crate::number::Vec2;

verus! {

/// Shell placement owned by one application window.
#[derive(Clone, Copy, Debug, PartialEq, Eq, Structural)]
pub struct WindowPlacement {
    pub position: Vec2,
    pub z_index: i32,
}

/// The next free index of the window band.
pub struct WindowStack {
    pub next: Option<i32>,
}

impl Default for WindowStack {
    fn default() -> (stack: WindowStack)
        ensures
            stack.next == Some(WINDOW_Z_INDEX_MIN),
            stack.wf(),
    {
        WindowStack { next: Some(WINDOW_Z_INDEX_MIN) }
    }
}

/// The index after `z_index`, while the band lasts.
pub open spec fn index_above(z_index: i32) -> Option<i32> {
    if z_index + 1 <= WINDOW_Z_INDEX_MAX {
        Some((z_index + 1) as i32)
    } else {
        None
    }
}

/// The index of the window with `rank` windows below it after a rebase.
pub open spec fn rebased_index(rank: int) -> i32 {
    if WINDOW_Z_INDEX_MIN + rank <= WINDOW_Z_INDEX_MAX {
        (WINDOW_Z_INDEX_MIN + rank) as i32
    } else {
        WINDOW_Z_INDEX_MAX
    }
}

/// The next free index after `count` windows have been rebased.
pub open spec fn next_after_rebase(count: int) -> Option<i32> {
    if count == 0 {
        Some(WINDOW_Z_INDEX_MIN)
    } else {
        index_above(rebased_index(count - 1))
    }
}

impl WindowStack {
    /// The next index lies in the window band.
    pub open spec fn wf(&self) -> bool {
        self.next matches Some(next) ==> WINDOW_Z_INDEX_MIN <= next <= WINDOW_Z_INDEX_MAX
    }

    /// Takes the next free index, if the band has one left.
    pub fn allocate(&mut self) -> (z_index: Option<i32>)
        ensures
            z_index == old(self).next,
            final(self).next == match old(self).next {
                Some(next) => index_above(next),
                None => None,
            },
            old(self).wf() ==> final(self).wf(),
    {
        let current: i32 = match self.next {
            Some(current) => current,
            None => {
                return None;
            },
        };
        self.next = match current.checked_add(1) {
            Some(next) => if next <= WINDOW_Z_INDEX_MAX {
                Some(next)
            } else {
                None
            },
            None => None,
        };
        Some(current)
    }
}

fn index_of_rank(rank: usize) -> (z_index: i32)
    ensures
        z_index == rebased_index(rank as int),
{
    let band: usize = (WINDOW_Z_INDEX_MAX - WINDOW_Z_INDEX_MIN) as usize;
    if rank <= band {
        WINDOW_Z_INDEX_MIN + rank as i32
    } else {
        WINDOW_Z_INDEX_MAX
    }
}

/// Renumbers a stacking order from the bottom of the band.
pub fn rebase_window_order(stack: &mut WindowStack, order: &mut [i32])
    ensures
        final(order)@.len() == old(order)@.len(),
        forall|i: int|
            0 <= i < old(order)@.len() ==> #[trigger] final(order)@[i] == rebased_index(i),
        final(stack).next == next_after_rebase(old(order)@.len() as int),
        final(stack).wf(),
{
    let count: usize = order.len();
    let mut i: usize = 0;
    while i < count
        invariant
            i <= count,
            order@.len() == count,
            forall|k: int| 0 <= k < i ==> #[trigger] order@[k] == rebased_index(k),
        decreases count - i,
    {
        order[i] = index_of_rank(i);
        i = i + 1;
    }
    stack.next = if count == 0 {
        Some(WINDOW_Z_INDEX_MIN)
    } else {
        let top: i32 = index_of_rank(count - 1);
        if top < WINDOW_Z_INDEX_MAX {
            Some(top + 1)
        } else {
            None
        }
    };
}

/// Whether window `j` is stacked below window `i`; of two with one index, the
/// one listed first is below.
pub open spec fn stacked_below(placements: Seq<WindowPlacement>, j: int, i: int) -> bool {
    placements[j].z_index < placements[i].z_index || (placements[j].z_index
        == placements[i].z_index && j < i)
}

/// How many of the first `end` windows are stacked below window `i`.
pub open spec fn windows_below(placements: Seq<WindowPlacement>, i: int, end: int) -> int
    decreases end,
{
    if end <= 0 {
        0
    } else {
        windows_below(placements, i, end - 1) + if stacked_below(placements, end - 1, i) {
            1int
        } else {
            0int
        }
    }
}

/// The placements renumbered from the bottom of the band, in the same order.
pub open spec fn rebased_placements(placements: Seq<WindowPlacement>) -> Seq<WindowPlacement> {
    Seq::new(
        placements.len(),
        |i: int|
            WindowPlacement {
                position: placements[i].position,
                z_index: rebased_index(windows_below(placements, i, placements.len() as int)),
            },
    )
}

fn count_below(placements: &Vec<WindowPlacement>, i: usize) -> (count: usize)
    requires
        i < placements@.len(),
    ensures
        count == windows_below(placements@, i as int, placements@.len() as int),
{
    let mut count: usize = 0;
    let mut j: usize = 0;
    while j < placements.len()
        invariant
            j <= placements@.len(),
            i < placements@.len(),
            count <= j,
            count == windows_below(placements@, i as int, j as int),
        decreases placements@.len() - j,
    {
        if placements[j].z_index < placements[i].z_index || (placements[j].z_index
            == placements[i].z_index && j < i) {
            count = count + 1;
        }
        j = j + 1;
    }
    count
}

/// Renumbers every window from the bottom of the band.
pub fn rebase_window_stack(stack: &mut WindowStack, placements: &mut Vec<WindowPlacement>)
    ensures
        final(placements)@ == rebased_placements(old(placements)@),
        final(stack).next == next_after_rebase(old(placements)@.len() as int),
        final(stack).wf(),
{
    let mut order: Vec<i32> = Vec::new();
    let count: usize = placements.len();
    let mut i: usize = 0;
    while i < count
        invariant
            i <= count,
            count == placements@.len(),
            order@.len() == i,
        decreases count - i,
    {
        order.push(0);
        i = i + 1;
    }
    rebase_window_order(stack, order.as_mut_slice());
    let mut rebased: Vec<WindowPlacement> = Vec::new();
    let mut n: usize = 0;
    while n < count
        invariant
            n <= count,
            count == placements@.len(),
            order@.len() == count,
            forall|k: int| 0 <= k < count ==> #[trigger] order@[k] == rebased_index(k),
            rebased@ =~= rebased_placements(placements@).take(n as int),
        decreases count - n,
    {
        let rank: usize = count_below(placements, n);
        proof {
            rank_is_an_index(placements@, n as int, count as int);
        }
        rebased.push(
            WindowPlacement { position: placements[n].position, z_index: order[rank] },
        );
        n = n + 1;
    }
    assert(rebased@ =~= rebased_placements(placements@));
    *placements = rebased;
}

proof fn rank_is_an_index(placements: Seq<WindowPlacement>, i: int, end: int)
    requires
        0 <= i < placements.len(),
        0 <= end <= placements.len(),
    ensures
        0 <= windows_below(placements, i, end) <= end,
        i < end ==> windows_below(placements, i, end) < end,
    decreases end,
{
    if end > 0 {
        rank_is_an_index(placements, i, end - 1);
    }
}

/// Whether the band has no free index, so that raising a window renumbers all.
pub open spec fn next_z_rebases(stack: WindowStack) -> bool {
    stack.next is None
}

/// The index for a raised window.
pub open spec fn raised_index(stack: WindowStack, count: int) -> i32 {
    match stack.next {
        Some(next) => next,
        None => match next_after_rebase(count) {
            Some(next) => next,
            None => WINDOW_Z_INDEX_MAX,
        },
    }
}

/// Takes the index for a raised window, renumbering every window where the
/// band has been used up.
pub fn next_window_z(stack: &mut WindowStack, placements: &mut Vec<WindowPlacement>) -> (z_index:
    i32)
    ensures
        z_index == raised_index(*old(stack), old(placements)@.len() as int),
        final(placements)@ == if next_z_rebases(*old(stack)) {
            rebased_placements(old(placements)@)
        } else {
            old(placements)@
        },
        final(stack).next == index_above(z_index),
        old(stack).wf() ==> final(stack).wf(),
{
    match stack.allocate() {
        Some(z_index) => z_index,
        None => {
            rebase_window_stack(stack, placements);
            match stack.allocate() {
                Some(z_index) => z_index,
                None => WINDOW_Z_INDEX_MAX,
            }
        },
    }
}

/// Renumbering keeps the stacking order, as long as the band holds every window.
pub proof fn rebasing_keeps_the_order(placements: Seq<WindowPlacement>, j: int, i: int)
    requires
        0 <= i < placements.len(),
        0 <= j < placements.len(),
        placements.len() <= WINDOW_Z_INDEX_MAX - WINDOW_Z_INDEX_MIN + 1,
        stacked_below(placements, j, i),
    ensures
        rebased_placements(placements)[j].z_index < rebased_placements(placements)[i].z_index,
{
    let n = placements.len() as int;
    rank_is_an_index(placements, j, n);
    rank_is_an_index(placements, i, n);
    lower_windows_have_lower_rank(placements, j, i, n);
}

proof fn lower_windows_have_lower_rank(
    placements: Seq<WindowPlacement>,
    j: int,
    i: int,
    end: int,
)
    requires
        0 <= i < placements.len(),
        0 <= j < placements.len(),
        0 <= end <= placements.len(),
        stacked_below(placements, j, i),
    ensures
        windows_below(placements, j, end) <= windows_below(placements, i, end),
        j < end ==> windows_below(placements, j, end) < windows_below(placements, i, end),
    decreases end,
{
    if end > 0 {
        lower_windows_have_lower_rank(placements, j, i, end - 1);
    }
}

/// A raised window is above every other, as long as the band holds one more.
pub proof fn raising_puts_a_window_on_top(
    stack: WindowStack,
    placements: Seq<WindowPlacement>,
    i: int,
)
    requires
        0 <= i < placements.len(),
        placements.len() <= WINDOW_Z_INDEX_MAX - WINDOW_Z_INDEX_MIN,
        stack.next matches Some(next) ==> placements[i].z_index < next,
    ensures
        ({
            let after = if next_z_rebases(stack) {
                rebased_placements(placements)
            } else {
                placements
            };
            after[i].z_index < raised_index(stack, placements.len() as int)
        }),
{
    if next_z_rebases(stack) {
        rank_is_an_index(placements, i, placements.len() as int);
    }
}

/// Allocation hands out ascending indices that are never repeated.
pub proof fn allocation_ascends(next: i32)
    requires
        WINDOW_Z_INDEX_MIN <= next <= WINDOW_Z_INDEX_MAX,
    ensures
        index_above(next) matches Some(above) ==> above == next + 1,
        index_above(next) is None <==> next == WINDOW_Z_INDEX_MAX,
{
}

/// Renumbering moves no window, keeps every index within the band, and starts at
/// the bottom of it: the window with none below it gets the lowest index.
pub proof fn rebasing_starts_at_the_bottom(placements: Seq<WindowPlacement>, i: int)
    requires
        0 <= i < placements.len(),
    ensures
        rebased_placements(placements).len() == placements.len(),
        rebased_placements(placements)[i].position == placements[i].position,
        0 <= rebased_placements(placements)[i].z_index <= WINDOW_Z_INDEX_MAX,
        (forall|j: int| 0 <= j < placements.len() ==> !stacked_below(placements, j, i))
            ==> rebased_placements(placements)[i].z_index == 0,
        placements.len() <= WINDOW_Z_INDEX_MAX ==> rebased_placements(placements)[i].z_index
            < placements.len(),
{
    let n = placements.len() as int;
    rank_is_an_index(placements, i, n);
    if forall|j: int| 0 <= j < placements.len() ==> !stacked_below(placements, j, i) {
        no_window_is_below(placements, i, n);
    }
}

proof fn no_window_is_below(placements: Seq<WindowPlacement>, i: int, end: int)
    requires
        0 <= i < placements.len(),
        0 <= end <= placements.len(),
        forall|j: int| 0 <= j < placements.len() ==> !stacked_below(placements, j, i),
    ensures
        windows_below(placements, i, end) == 0,
    decreases end,
{
    if end > 0 {
        assert(!stacked_below(placements, end - 1, i));
        no_window_is_below(placements, i, end - 1);
    }
}

/// A window is below another just if its index is lower, or the same and it is
/// listed first: of two windows exactly one is below.
pub proof fn one_of_two_windows_is_below(placements: Seq<WindowPlacement>, j: int, i: int)
    requires
        0 <= i < placements.len(),
        0 <= j < placements.len(),
    ensures
        placements[j].z_index < placements[i].z_index ==> stacked_below(placements, j, i),
        placements[j].z_index == placements[i].z_index && j < i ==> stacked_below(
            placements,
            j,
            i,
        ),
        i != j ==> stacked_below(placements, j, i) != stacked_below(placements, i, j),
        !stacked_below(placements, i, i),
{
}

/// After a rebase the next free index is the number of windows, while the band
/// lasts; a raised window gets it, or the next free index where there is one.
pub proof fn raised_windows_get_the_next_index(stack: WindowStack, count: int)
    requires
        0 <= count,
    ensures
        count <= WINDOW_Z_INDEX_MAX ==> next_after_rebase(count) == Some(count as i32),
        count > WINDOW_Z_INDEX_MAX ==> next_after_rebase(count) is None,
        stack.next matches Some(next) ==> raised_index(stack, count) == next && !next_z_rebases(
            stack,
        ),
        stack.next is None ==> next_z_rebases(stack) && raised_index(stack, count) == (if count
            <= WINDOW_Z_INDEX_MAX {
            count
        } else {
            WINDOW_Z_INDEX_MAX as int
        }),
{
}

} // verus!
