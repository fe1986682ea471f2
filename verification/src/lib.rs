//! Ordered output for concurrent tasks: every task writes through its own
//! handle, and the bytes reach the sink strictly in task order, one task at a
//! time, while no task ever waits for its turn.

pub mod color;
pub mod history;
pub mod model;
pub mod render;
pub mod sequencer;
pub mod sync;
pub mod task;

pub use crate::color::Color;
pub use crate::sequencer::{Sequencer, Target};
pub use crate::sync::Mutex;
pub use crate::task::{Chunk, Op, Task};
