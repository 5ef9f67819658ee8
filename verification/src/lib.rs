//! Identity and archival core of a model-packaging tool.
//!
//! The crate centres on [`tag::Tag`], a canonical `(name, version)`
//! identifier with strict validation, lowercase normalization, parsing,
//! partial ordering, hashing and a compact byte encoding; [`version`], which
//! derives fresh, always-valid version fragments from wall-clock time and a
//! machine identifier; [`executor`], the decision core of a cancellable
//! background operation; [`archive`], the fixed parameters of the archive
//! format; and [`status`], the error-severity taxonomy those operations
//! surface through.

pub mod archive;
pub mod codec;
pub mod errors;
pub mod executor;
pub mod order;
pub mod status;
pub mod tag;
pub mod validate;
pub mod version;
