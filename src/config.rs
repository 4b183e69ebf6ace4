use vstd::prelude::*;

verus! {

/// Where and how the object store is reached.
pub struct ImageConfig {
    pub access_key: String,
    pub secret_key: String,
    pub bucket: String,
    pub endpoint: String,
    pub path_style: bool,
}

/// The smallest part of a multipart upload, and the size at and above which
/// a payload goes up in parts: 5 MiB.
pub const MIN_PART_SIZE: u64 = 5242880;

} // verus!
