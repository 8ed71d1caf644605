//! The entry point through which the metadata service reaches its node.
use vstd::prelude::*;
use std::sync::Arc;

verus! {

/// Serves the requests of the metadata service with a shared handle on the
/// node that holds the replicated metadata.
pub struct ActionHandler<N> {
    pub meta_node: Arc<N>,
}

impl<N> ActionHandler<N> {
    /// A handler that serves requests through `meta_node`.
    pub fn create(meta_node: Arc<N>) -> (r: Self)
        ensures
            r.meta_node == meta_node,
    {
        ActionHandler { meta_node }
    }
}

} // verus!
