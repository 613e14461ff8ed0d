//! Codecs that carry a columnar batch of unsigned 64-bit values through a
//! message bus as an opaque byte payload.
//!
//! Two codecs are offered. The self-describing codec ([`RandomData`]) writes
//! an Arrow IPC stream that carries its own schema and framing. The raw
//! codec ([`RawRandomData`]) writes nothing but the element bytes and relies
//! on a row count that both ends agree on beforehand.

pub mod batch;
pub mod ipc;
pub mod le_bytes;
pub mod raw;
mod trusted;

pub use batch::{BatchError, BatchView, Field, FieldView, RandomData, Schema, ROW_COUNT};
pub use ipc::{FormatError, WriteError};
pub use raw::{LengthMismatchError, RawRandomData};
