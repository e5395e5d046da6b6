use vstd::prelude::*;

use crate::corner::{after_close, after_configure, configure_draws, created, CornerState, CornerView};
use crate::quadrant::Quadrant;

verus! {

/// The slot of each corner: TopLeft, TopRight, BottomLeft, BottomRight.
pub open spec fn slot_of(q: Quadrant) -> int {
    match q {
        Quadrant::TopLeft => 0,
        Quadrant::TopRight => 1,
        Quadrant::BottomLeft => 2,
        Quadrant::BottomRight => 3,
    }
}

/// The coordinator as the contracts see it.
pub struct StateView {
    /// One tile per corner, in slot order.
    pub corners: Seq<CornerView>,
    /// The driver should stop.
    pub exit: bool,
}

impl StateView {
    /// Four tiles, each in the slot of its own corner.
    pub open spec fn wf(self) -> bool {
        &&& self.corners.len() == 4
        &&& forall|i: int| 0 <= i < 4 ==> slot_of(#[trigger] self.corners[i].quadrant) == i
    }
}

/// The first slot, from `i` on, whose tile is presented on `surface`.
pub open spec fn find_from(corners: Seq<CornerView>, surface: u32, i: int) -> Option<int>
    decreases corners.len() - i,
{
    if i < 0 || i >= corners.len() {
        None
    } else if corners[i].surface == surface {
        Some(i)
    } else {
        find_from(corners, surface, i + 1)
    }
}

/// The slot of the tile presented on `surface`, if one is tracked.
pub open spec fn tracked_slot(s: StateView, surface: u32) -> Option<int> {
    find_from(s.corners, surface, 0)
}

/// The coordinator after a configure event for `surface` proposing `height`:
/// routed to the tile presented there, ignored where there is none.
pub open spec fn state_after_configure(s: StateView, surface: u32, height: u32) -> StateView {
    match tracked_slot(s, surface) {
        Some(i) => StateView {
            corners: s.corners.update(i, after_configure(s.corners[i], height)),
            ..s
        },
        None => s,
    }
}

/// The corner that a configure event for `surface` asks to draw.
pub open spec fn configure_redraws(s: StateView, surface: u32) -> Option<Quadrant> {
    match tracked_slot(s, surface) {
        Some(i) => if configure_draws(s.corners[i]) {
            Some(s.corners[i].quadrant)
        } else {
            None
        },
        None => None,
    }
}

/// The coordinator after `surface` was reported closed: closing any tracked
/// tile stops the whole program; an untracked surface is ignored.
pub open spec fn state_after_closed(s: StateView, surface: u32) -> StateView {
    match tracked_slot(s, surface) {
        Some(i) => StateView {
            corners: s.corners.update(i, after_close(s.corners[i])),
            exit: true,
        },
        None => s,
    }
}

/// The four corner tiles, one per slot, and the exit flag that the driving
/// loop polls.
pub struct State {
    corners: [CornerState; 4],
    exit: bool,
}

impl View for State {
    type V = StateView;

    closed spec fn view(&self) -> StateView {
        StateView { corners: self.corners@.map_values(|c: CornerState| c@), exit: self.exit }
    }
}

impl State {
    /// The four tiles, each of `radius` pixels and waiting for its first
    /// configure. `surfaces` holds the identity of each corner's surface, in
    /// the order TopLeft, TopRight, BottomLeft, BottomRight.
    pub fn new(surfaces: [u32; 4], radius: u32) -> (s: State)
        requires
            radius > 0,
        ensures
            s@.wf(),
            forall|i: int|
                0 <= i < 4 ==> s@.corners[i] == created(
                    #[trigger] Quadrant::all_spec()[i],
                    radius,
                    surfaces@[i],
                ),
            !s@.exit,
    {
        let corners = [
            CornerState::new(Quadrant::TopLeft, radius, surfaces[0]),
            CornerState::new(Quadrant::TopRight, radius, surfaces[1]),
            CornerState::new(Quadrant::BottomLeft, radius, surfaces[2]),
            CornerState::new(Quadrant::BottomRight, radius, surfaces[3]),
        ];
        let s = State { corners, exit: false };
        assert(s@.wf());
        s
    }

    /// Whether the driving loop should stop.
    pub fn should_exit(&self) -> (b: bool)
        ensures
            b == self@.exit,
    {
        self.exit
    }

    /// The tile in the slot of corner `q`.
    pub fn corner(&self, q: Quadrant) -> (c: &CornerState)
        ensures
            c@ == self@.corners[slot_of(q)],
    {
        let i: usize = match q {
            Quadrant::TopLeft => 0,
            Quadrant::TopRight => 1,
            Quadrant::BottomLeft => 2,
            Quadrant::BottomRight => 3,
        };
        &self.corners[i]
    }

    /// The slot of the tile presented on `surface`, if one is tracked.
    fn find(&self, surface: u32) -> (i: Option<usize>)
        ensures
            match tracked_slot(self@, surface) {
                Some(j) => i == Some(j as usize) && 0 <= j < 4,
                None => i is None,
            },
    {
        let mut i: usize = 0;
        while i < 4
            invariant
                i <= 4,
                self@.corners.len() == 4,
                find_from(self@.corners, surface, 0) == find_from(self@.corners, surface, i as int),
            decreases 4 - i,
        {
            if self.corners[i].surface() == surface {
                return Some(i);
            }
            i = i + 1;
        }
        None
    }

    /// Routes a configure event for `surface`, proposing `height` pixels, to
    /// the tile presented there; an untracked surface is ignored. The result
    /// is the corner that must now be drawn, if any.
    pub fn dispatch_configure(&mut self, surface: u32, height: u32) -> (redraw: Option<Quadrant>)
        ensures
            final(self)@ == state_after_configure(old(self)@, surface, height),
            old(self)@.wf() ==> final(self)@.wf(),
            redraw == configure_redraws(old(self)@, surface),
    {
        match self.find(surface) {
            None => None,
            Some(i) => {
                let mut c = self.corners[i];
                let draw = c.on_configure(height);
                self.corners[i] = c;
                proof {
                    assert(self@.corners =~= old(self)@.corners.update(
                        i as int,
                        after_configure(old(self)@.corners[i as int], height),
                    ));
                }
                if draw {
                    Some(c.quadrant())
                } else {
                    None
                }
            },
        }
    }

    /// Records that `surface` was closed. Closing any tracked tile asks the
    /// driving loop to stop; an untracked surface is ignored.
    pub fn dispatch_closed(&mut self, surface: u32)
        ensures
            final(self)@ == state_after_closed(old(self)@, surface),
            old(self)@.wf() ==> final(self)@.wf(),
    {
        match self.find(surface) {
            None => {},
            Some(i) => {
                let mut c = self.corners[i];
                c.on_closed();
                self.corners[i] = c;
                self.exit = true;
                proof {
                    assert(self@.corners =~= old(self)@.corners.update(
                        i as int,
                        after_close(old(self)@.corners[i as int]),
                    ));
                }
            },
        }
    }
}

/// Routing looks at surface identities alone: two rows of tiles presented on
/// the same surfaces route every identity to the same slot.
proof fn lemma_find_same_surfaces(a: Seq<CornerView>, b: Seq<CornerView>, surface: u32, i: int)
    requires
        a.len() == b.len(),
        forall|j: int| 0 <= j < a.len() ==> a[j].surface == b[j].surface,
    ensures
        find_from(a, surface, i) == find_from(b, surface, i),
    decreases a.len() - i,
{
    if 0 <= i < a.len() {
        lemma_find_same_surfaces(a, b, surface, i + 1);
    }
}

/// The slot that `find_from` returns holds a tile presented on `surface`.
proof fn lemma_find_in_range(a: Seq<CornerView>, surface: u32, i: int)
    ensures
        find_from(a, surface, i) matches Some(j) ==> i <= j < a.len() && a[j].surface == surface,
    decreases a.len() - i,
{
    if 0 <= i < a.len() {
        lemma_find_in_range(a, surface, i + 1);
    }
}

/// Closing any tracked surface asks the driving loop to stop, and reporting
/// the same closure again changes nothing.
pub proof fn lemma_close_stops(s: StateView, surface: u32)
    requires
        tracked_slot(s, surface) is Some,
    ensures
        state_after_closed(s, surface).exit,
        state_after_closed(state_after_closed(s, surface), surface) == state_after_closed(
            s,
            surface,
        ),
{
    let t = state_after_closed(s, surface);
    let i = tracked_slot(s, surface)->0;
    lemma_find_in_range(s.corners, surface, 0);
    lemma_find_same_surfaces(s.corners, t.corners, surface, 0);
    assert(t.corners.update(i, after_close(t.corners[i])) =~= t.corners);
}

} // verus!
