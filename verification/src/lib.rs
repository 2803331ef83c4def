//! A single-producer single-consumer ring buffer whose header and slots live in
//! a segment shared between processes.
pub mod layout;
pub mod mmap;
pub mod ring_index;
pub mod protocol;
pub mod ring_buffer;
pub mod builder;

pub use builder::IpcBuilder;
pub use mmap::{IpcError, SharedRegion};
pub use ring_buffer::{Consumer, Producer};
