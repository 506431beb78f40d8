//! A streaming decoder for a tab-delimited, line-oriented genomic variant
//! exchange format: a header block describing file metadata and column
//! layout, followed by one record per line. The decoder determines the file
//! shape once from the header, then decodes records one line at a time,
//! skipping columns the caller did not request and deferring per-sample
//! decomposition until asked for.
//!
//! The byte source itself (and its optional gzip layer) is a collaborator
//! outside this crate: callers feed complete lines in and get typed values
//! back.

pub mod caps;
pub mod error;
pub mod header;
pub mod info;
pub mod laws;
pub mod record;
pub mod sample;
pub mod scan;
pub mod split;

pub use caps::CapabilityMask;
pub use error::VcfError;
pub use header::VcfFile;
pub use header::VcfHeader;
pub use info::InfoEntry;
pub use info::NonStandardInfoValue;
pub use record::VcfRecord;
pub use sample::Sample;
pub use sample::SampleInfo;
pub use split::fast_split;
