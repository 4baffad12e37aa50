//! Client-side core of a line-oriented text protocol spoken by a voxel world
//! server: command serialization, an incremental numeric field decoder and
//! streaming collectors that rebuild dense, origin-addressed grids.
pub mod chunk;
pub mod heights;
pub mod wire;

mod argument;
mod block;
mod command;
mod coordinate;
mod coordinate2d;
mod error;
mod response;
mod size;
mod size2d;

pub use argument::Argument;
pub use block::Block;
pub use chunk::Chunk;
pub use command::{is_valid_command_name, Command};
pub use coordinate::Coordinate;
pub use coordinate2d::Coordinate2D;
pub use error::{Error, IntegerError, OutOfBoundsError};
pub use heights::Heights;
pub use response::{BufReader, IntegerStream, ResponseStream, Terminator, WithTerminator};
pub use size::Size;
pub use size2d::Size2D;
