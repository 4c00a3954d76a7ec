//! What can go wrong while amending a manifest.
use vstd::prelude::*;

verus! {

/// Why an operation on a manifest failed; the string names the section,
/// field or dependency concerned.
pub enum ManifestError {
    /// The file name of a manifest path is not the manifest file name.
    InvalidManifestName,
    /// A section that the operation needs is absent.
    MissingSection(String),
    /// A field that the operation needs is absent.
    MissingField(String),
    /// A value holds another kind of container or scalar than expected.
    WrongShape(String),
    /// A path field holds something other than a string.
    NotAString(String),
    /// No path is given and the conventional default does not exist.
    NoDefaultPath(String),
}

} // verus!
