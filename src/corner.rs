use vstd::prelude::*;

use crate::mask::{mask_bytes, paint};
use crate::quadrant::Quadrant;

verus! {

/// Side length, in pixels, of a tile before the display session proposes one.
pub const DEFAULT_RADIUS: u32 = 24;

/// The state of one corner tile as the contracts see it.
pub struct CornerView {
    pub quadrant: Quadrant,
    /// Side length of the square tile and radius of its cutout.
    pub radius: u32,
    /// Identity of the tile's presentable surface.
    pub surface: u32,
    /// No configure has been handled yet, so nothing has been drawn.
    pub first_configure: bool,
    /// The surface was reported closed; no further transition happens.
    pub closed: bool,
}

/// A freshly created tile.
pub open spec fn created(quadrant: Quadrant, radius: u32, surface: u32) -> CornerView {
    CornerView { quadrant, radius, surface, first_configure: true, closed: false }
}

/// The radius that a configure of the given height sets: the height itself,
/// or the default when the session proposes zero.
pub open spec fn configured_radius(height: u32) -> u32 {
    if height == 0 {
        DEFAULT_RADIUS
    } else {
        height
    }
}

/// A configure event on `s` asks for a draw: only the first one, and only
/// while the surface is open.
pub open spec fn configure_draws(s: CornerView) -> bool {
    s.first_configure && !s.closed
}

/// The tile after a configure event proposing `height`.
pub open spec fn after_configure(s: CornerView, height: u32) -> CornerView {
    if s.closed {
        s
    } else {
        CornerView { radius: configured_radius(height), first_configure: false, ..s }
    }
}

/// The tile after its surface was reported closed.
pub open spec fn after_close(s: CornerView) -> CornerView {
    CornerView { closed: true, ..s }
}

/// How many draws a run of configure events, one per height, triggers when it
/// starts from `s`.
pub open spec fn draws_during(s: CornerView, heights: Seq<u32>) -> nat
    decreases heights.len(),
{
    if heights.len() == 0 {
        0
    } else {
        (if configure_draws(s) {
            1nat
        } else {
            0nat
        }) + draws_during(after_configure(s, heights[0]), heights.drop_first())
    }
}

/// One corner tile: which corner it covers, its size, the identity of the
/// surface that presents it, and where it stands in its lifecycle
/// (created, drawn once, closed).
#[derive(Clone, Copy, Debug)]
pub struct CornerState {
    quadrant: Quadrant,
    radius: u32,
    surface: u32,
    first_configure: bool,
    closed: bool,
}

impl View for CornerState {
    type V = CornerView;

    closed spec fn view(&self) -> CornerView {
        CornerView {
            quadrant: self.quadrant,
            radius: self.radius,
            surface: self.surface,
            first_configure: self.first_configure,
            closed: self.closed,
        }
    }
}

impl CornerState {
    #[verifier::type_invariant]
    spec fn inv(&self) -> bool {
        self.radius > 0
    }

    /// A tile for `quadrant` presented on `surface`, waiting for its first
    /// configure before it draws anything.
    pub fn new(quadrant: Quadrant, radius: u32, surface: u32) -> (s: CornerState)
        requires
            radius > 0,
        ensures
            s@ == created(quadrant, radius, surface),
    {
        CornerState { quadrant, radius, surface, first_configure: true, closed: false }
    }

    pub fn quadrant(&self) -> (q: Quadrant)
        ensures
            q == self@.quadrant,
    {
        self.quadrant
    }

    pub fn radius(&self) -> (r: u32)
        ensures
            r == self@.radius,
            r > 0,
    {
        proof {
            use_type_invariant(self);
        }
        self.radius
    }

    pub fn surface(&self) -> (id: u32)
        ensures
            id == self@.surface,
    {
        self.surface
    }

    /// No configure has been handled yet.
    pub fn awaits_first_configure(&self) -> (b: bool)
        ensures
            b == self@.first_configure,
    {
        self.first_configure
    }

    pub fn is_closed(&self) -> (b: bool)
        ensures
            b == self@.closed,
    {
        self.closed
    }

    /// Handles a configure event proposing `height` pixels. The radius always
    /// follows the proposal (zero stands for the default); the result says
    /// whether the tile must now be drawn, which is the case on the first
    /// configure alone. A closed tile ignores the event.
    pub fn on_configure(&mut self, height: u32) -> (draw: bool)
        ensures
            final(self)@ == after_configure(old(self)@, height),
            draw == configure_draws(old(self)@),
    {
        proof {
            use_type_invariant(&*self);
        }
        if self.closed {
            return false;
        }
        let draw = self.first_configure;
        self.radius = if height == 0 {
            DEFAULT_RADIUS
        } else {
            height
        };
        self.first_configure = false;
        draw
    }

    /// Records that the tile's surface was closed.
    pub fn on_closed(&mut self)
        ensures
            final(self)@ == after_close(old(self)@),
    {
        proof {
            use_type_invariant(&*self);
        }
        self.closed = true;
    }

    /// The size in bytes of a pixel buffer for this tile, four bytes per
    /// pixel, or `None` where it does not fit in `usize`.
    pub fn buffer_len(&self) -> (n: Option<usize>)
        ensures
            match n {
                Some(n) => n == self@.radius * self@.radius * 4,
                None => self@.radius * self@.radius * 4 > usize::MAX,
            },
    {
        let r = self.radius as usize;
        if (self.radius as u64) > (usize::MAX as u64) {
            proof {
                assert(self@.radius * self@.radius * 4 > usize::MAX) by (nonlinear_arith)
                    requires
                        self@.radius > usize::MAX,
                ;
            }
            return None;
        }
        match r.checked_mul(r) {
            None => None,
            Some(rr) => rr.checked_mul(4),
        }
    }

    /// Fills `canvas`, the tile's pixel buffer, with its mask at the current
    /// radius.
    pub fn draw(&self, canvas: &mut [u8])
        requires
            old(canvas)@.len() == self@.radius * self@.radius * 4,
        ensures
            final(canvas)@ == mask_bytes(self@.radius as int, self@.quadrant),
    {
        paint(canvas, self.radius, self.quadrant);
    }
}

/// Once a tile has been configured, no configure event draws it again.
proof fn lemma_no_draw_after_first(s: CornerView, heights: Seq<u32>)
    requires
        !s.first_configure || s.closed,
    ensures
        draws_during(s, heights) == 0,
    decreases heights.len(),
{
    if heights.len() > 0 {
        lemma_no_draw_after_first(after_configure(s, heights[0]), heights.drop_first());
    }
}

/// A freshly created tile is drawn exactly once over any non-empty run of
/// configure events: on the first, never on a later one.
pub proof fn lemma_drawn_exactly_once(
    quadrant: Quadrant,
    radius: u32,
    surface: u32,
    heights: Seq<u32>,
)
    requires
        radius > 0,
        heights.len() > 0,
    ensures
        draws_during(created(quadrant, radius, surface), heights) == 1,
        configure_draws(created(quadrant, radius, surface)),
        !configure_draws(after_configure(created(quadrant, radius, surface), heights[0])),
{
    let s = created(quadrant, radius, surface);
    lemma_no_draw_after_first(after_configure(s, heights[0]), heights.drop_first());
}

} // verus!
