//! Rover plateau simulation: a bounded rectangular grid, rovers placed on it
//! with a position and facing, and motion paths that turn a rover or move it
//! one step with clamping at the grid's edges. The crate also models the
//! persistence gateway that stores plateaus and rovers and the orchestration
//! that loads a rover, applies a motion path and writes the result back.

use vstd::prelude::*;

mod direction;
mod ids;
mod error;
mod motion;
mod plateau;
mod pose;
mod rover;
mod store;
pub mod text;

pub use direction::Direction;
pub use error::Error;
pub use motion::Motion;
pub use plateau::{Plateau, PlateauDB, PlateauRequest, Plateaus};
pub use pose::Pose;
pub use rover::{Rover, RoverDB, RoverRequest, Rovers};
pub use store::{
    create_plateau, create_rover, get_plateau, get_rover, get_rover_n, get_rovers_count,
    list_plateaus, list_rovers, move_rover, Store,
};

verus! {

/// Options applied to each store connection as it is checked out of the
/// pool: whether to switch on write-ahead logging and foreign keys, and the
/// store's busy timeout in milliseconds, if one is set. The layer that owns
/// the pool applies them; the library only carries the choice.
#[derive(Debug, Clone, Copy, PartialEq, Eq, Structural)]
pub struct ConnectionOptions {
    pub enable_wal: bool,
    pub enable_foreign_keys: bool,
    pub busy_timeout_ms: Option<u64>,
}

} // verus!
