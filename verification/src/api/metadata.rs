//! The chain's metadata, as far as failures go: which error each pallet's codes name.

use vstd::prelude::*;

verus! {

/// What the metadata says of one error of one pallet.
#[derive(Clone, Debug, PartialEq, Eq)]
pub struct ErrorSource {
    /// The pallet's name.
    pub pallet: String,
    /// The error's name.
    pub error: String,
    /// The error's documentation, line by line.
    pub description: Vec<String>,
}

/// An [`ErrorSource`] as mathematics.
pub struct ErrorSourceView {
    pub pallet: Seq<char>,
    pub error: Seq<char>,
    pub description: Seq<Seq<char>>,
}

impl View for ErrorSource {
    type V = ErrorSourceView;

    open spec fn view(&self) -> ErrorSourceView {
        ErrorSourceView {
            pallet: self.pallet@,
            error: self.error@,
            description: self.description.deep_view(),
        }
    }
}

/// The metadata that a node sent, as `subxt` holds it. Nothing inside it is visible
/// here; what it says of errors goes by [`metadata_errors`].
#[verifier::external_type_specification]
#[verifier::external_body]
pub struct ExMetadata(subxt::Metadata);

/// The errors that `metadata` files, each under its pallet's index and its own index
/// within the pallet.
pub uninterp spec fn metadata_errors(metadata: subxt::Metadata) -> Map<(u8, u8), ErrorSourceView>;

/// `subxt::Metadata::error`, with the names and the documentation that
/// `ErrorMetadata::pallet`, `error` and `description` give of what it found, copied
/// out. It finds what the metadata files under the two indices, and nothing where
/// the metadata files nothing there.
#[verifier::external_body]
fn metadata_error(metadata: &subxt::Metadata, pallet_index: u8, error_index: u8) -> (found:
    Option<ErrorSource>)
    ensures
        found is Some <==> metadata_errors(*metadata).contains_key((pallet_index, error_index)),
        found matches Some(source) ==> source@ == metadata_errors(*metadata)[(
            pallet_index,
            error_index,
        )],
{
    match metadata.error(pallet_index, error_index) {
        Ok(details) => Some(
            ErrorSource {
                pallet: details.pallet().to_string(),
                error: details.error().to_string(),
                description: details.description().to_vec(),
            },
        ),
        Err(_) => None,
    }
}

/// The errors that the pallets of the node's runtime define, read from the node's
/// metadata.
pub struct MetadataRegistry {
    metadata: subxt::Metadata,
}

impl View for MetadataRegistry {
    type V = Map<(u8, u8), ErrorSourceView>;

    closed spec fn view(&self) -> Map<(u8, u8), ErrorSourceView> {
        metadata_errors(self.metadata)
    }
}

impl MetadataRegistry {
    /// The registry of the errors that `metadata` files.
    pub fn new(metadata: subxt::Metadata) -> (registry: MetadataRegistry)
        ensures
            registry@ == metadata_errors(metadata),
    {
        MetadataRegistry { metadata }
    }

    /// The error `error_index` of the pallet `pallet_index`, if the metadata files it.
    pub fn lookup_error(&self, pallet_index: u8, error_index: u8) -> (found: Option<ErrorSource>)
        ensures
            found is Some <==> self@.contains_key((pallet_index, error_index)),
            found matches Some(source) ==> source@ == self@[(pallet_index, error_index)],
    {
        metadata_error(&self.metadata, pallet_index, error_index)
    }
}

} // verus!
