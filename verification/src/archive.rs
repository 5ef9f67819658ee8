//! Parameters of the archive format.
//!
//! An archive is a directory-tree container layered over a general-purpose
//! streaming compressor at a fixed low level, chosen for pack-time
//! throughput over ratio. The streaming itself is I/O and lives with the
//! host around this library; what is decided here is the format's fixed
//! parameters and the name an artifact's archive is written under.

use vstd::prelude::*;
use vstd::string::*;

verus! {

/// Compression level of the archive stream.
pub const ARCHIVE_COMPRESSION_LEVEL: i32 = 3;

/// The file name a packed artifact is written to: the artifact's name with
/// the container suffix.
pub fn bento_archive_name(name: &str) -> (r: String)
    ensures
        r@ == name@ + ".bento"@,
{
    let mut r = String::from_str(name);
    r.append(".bento");
    r
}

} // verus!
