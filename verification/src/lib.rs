//! Bounded stack-trace serializer.
//!
//! Renders a snapshot of a scripting runtime's call stack into a
//! fixed-capacity byte buffer: frames are filtered (native frames are
//! dropped), formatted as `name@filename:line`, space-joined, and written
//! through a bounded writer that reserves one byte for a terminator and
//! turns "buffer full" into a truncation signal instead of an error.

pub mod frame;
pub mod serialize;
pub mod text;
pub mod writer;

pub use crate::frame::FrameInfo;
pub use crate::frame::get_filename;
pub use crate::serialize::SerializeOutcome;
pub use crate::serialize::boundary_code;
pub use crate::serialize::dump_stack;
pub use crate::serialize::serialize_stack;
pub use crate::writer::OutputBuffer;
pub use crate::writer::Truncated;
