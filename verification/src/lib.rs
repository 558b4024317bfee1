//! A safe binding core for a native engine that matches rules against bytes.
//!
//! The engine itself lies outside this library and is reached through a
//! driver. Here is everything that has to be decided around its calls: the
//! life of an engine handle and its one compilation (`yara`), the copying of
//! the engine's records into owned values (`rule`, over the captured records
//! of `libyara`), the callback that collects the rules of a scan
//! (`callbacks`), and the errors and diagnostics (`errors`).

#![allow(non_camel_case_types)]
#![allow(non_snake_case)]

pub mod callbacks;
pub mod errors;
pub mod libyara;
pub mod rule;
pub mod sentinel;
pub mod text;
pub mod yara;

pub use callbacks::scan_callback;
pub use errors::{error_callback, get_last_error, Error};
pub use rule::metadata::{MetaType, Metadata, MetadataIterator, MetadataValue};
pub use rule::tag::TagIterator;
pub use rule::yr_string::{Match, MatchIterator, YrString, YrStringIterator};
pub use rule::Rule;
pub use yara::{NativeCall, Yara};
