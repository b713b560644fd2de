//! What the upstream registry's answers carry, once the mandatory
//! headers have been checked.

use vstd::prelude::*;

verus! {

/// A manifest HEAD/GET answer: digest, declared content type and
/// declared length, all mandatory upstream headers.
pub struct ProxyManifestResponse {
    pub hash: String,
    pub content_type: String,
    pub content_length: u32,
}

/// A blob GET answer: the digest header is optional (some registries
/// omit it), the declared length is not.
pub struct ProxyBlobResponse {
    pub hash: Option<String>,
    pub content_length: u32,
}

} // verus!
