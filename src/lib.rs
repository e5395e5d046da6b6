//! Rounded screen corners: four small overlay tiles, one per screen corner,
//! each opaque except for a quarter-circle cutout whose centre sits on the
//! outer screen corner.

pub mod mask;
pub mod quadrant;

pub use mask::{paint, pixel_color, local_coords, OPAQUE_BLACK, TRANSPARENT};
pub use quadrant::Quadrant;
pub mod corner;

pub use corner::{CornerState, DEFAULT_RADIUS};
pub mod state;

pub use state::State;
