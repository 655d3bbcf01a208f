//! A bridge between a byte-oriented sink that fails with a structured error
//! and a text-oriented writing contract whose failure signal carries no
//! payload.
//!
//! Algorithms written against the text contract (a single "write this string
//! chunk" operation that can only fail with [`SignalError`]) can drive any
//! [`ByteSink`] through the [`Writer`] adapter. The [`bridge::write`] driver owns the
//! sink for one callback invocation, records the sink's structured error out
//! of band, and reports it to the caller once the callback returns.

pub mod bridge;
pub mod error;
pub mod sink;

pub use crate::bridge::write_chunks;
pub use crate::bridge::write_pair;
pub use crate::bridge::write_value;
pub use crate::bridge::Writer;
pub use crate::error::IoError;
pub use crate::error::IoErrorKind;
pub use crate::error::SignalError;
pub use crate::sink::ByteSink;
pub use crate::sink::ScriptedSink;
pub use crate::sink::VecSink;
