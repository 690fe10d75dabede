//! The decisions of a binding to a native PDF engine, verified.
//!
//! The native engine loads a document from memory, hands out the text
//! of its pages as UTF-16 and dumps its structure as JSON. A binding
//! to it has to make the right calls in the right order, release
//! every handle it was given, and turn what comes back into text or
//! into an error. All of that is decided here, over plain values. A
//! driver outside this library performs the calls: it asks a pipeline
//! for the call that is due, makes it, and hands the reply back.
//!
//! - [`engine`]: the calls and the replies.
//! - [`extract`]: the text extraction pipeline.
//! - [`convert`]: the structure-to-JSON pipeline.
//! - [`init`]: the latch that lets the engine be set up once.
//! - [`export`]: what goes out over the C-compatible surface.
//! - [`error`]: the failures that a caller can see.
//! - [`utf16`], [`utf8`]: lossy decoding of what the engine returns.
//! - [`ledger`], [`trace`]: the account of native resources, and the
//!   proof that every run of a pipeline keeps it.
//! - [`document`], [`separators`]: the text of a document said
//!   directly, the proof that an extraction yields it, and where the
//!   page separator stands in it.

pub mod convert;
pub mod document;
pub mod engine;
pub mod error;
pub mod export;
pub mod extract;
pub mod init;
pub mod ledger;
pub mod separators;
pub mod trace;
pub mod utf16;
pub mod utf8;

pub use convert::{Conversion, ConversionStep};
pub use engine::{NativeCall, Reply};
pub use error::PdfiumError;
pub use extract::{Extraction, ExtractionStep, PAGE_SEPARATOR};
pub use init::{Admission, InitLatch};
