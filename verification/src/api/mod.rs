//! The node's events as plain values, and what they say of a transaction.

use crate::api::metadata::{ErrorSourceView, MetadataRegistry};
use vstd::prelude::*;

pub mod error;
pub mod events;
pub mod metadata;
pub mod record;
pub mod wait;

verus! {

/// The client's side of a node: the metadata of the runtime that the node runs.
pub struct Api {
    metadata: MetadataRegistry,
}

impl Api {
    /// The errors that the node's metadata names.
    pub closed spec fn errors(&self) -> Map<(u8, u8), ErrorSourceView> {
        self.metadata@
    }

    /// A client that reads failures by `metadata`.
    pub fn new(metadata: MetadataRegistry) -> (api: Api)
        ensures
            api.errors() == metadata@,
    {
        Api { metadata }
    }

    /// The metadata that the client reads failures by.
    pub fn metadata(&self) -> (metadata: &MetadataRegistry)
        ensures
            metadata@ == self.errors(),
    {
        &self.metadata
    }
}

} // verus!
