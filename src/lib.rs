//! Lists the entries of zip and tar archives (optionally gzip, xz or bzip2
//! compressed) with a content hash per entry.
//!
//! The archive format is resolved from an explicit choice or from the chain
//! of extensions that ends the target's file name; each listed entry is
//! rendered as one line holding its name, its hash and optionally its size.

pub mod format;
pub mod render;
pub mod listing;

pub use format::{extension_chain, resolve_format, Compressor, Container, Ext, FileFormat, FormatError};
pub use render::{apply_case, display_name, escape_name, format_line};
pub use listing::{FilterError, Opts, PathFilter};
