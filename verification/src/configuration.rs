//! Process configuration: the three storage roots the registry works
//! under.

use vstd::prelude::*;

verus! {

/// Where the registry keeps its own data, its in-flight uploads and
/// its pull-through proxy cache.
pub struct Configuration {
    pub registry_storage: String,
    pub temporary_registry_storage: String,
    pub proxy_storage: String,
}

} // verus!
