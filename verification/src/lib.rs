//! A single-producer single-consumer bip buffer over external storage.
pub mod buffer;
pub mod error;
pub mod laws;
pub mod state;

pub use buffer::{BipBuffer, BipBufferReader, BipBufferWriter};
pub use error::{CommitError, PrepareError};
pub use state::BipState;
