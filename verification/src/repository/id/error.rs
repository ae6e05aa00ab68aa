use vstd::prelude::*;

verus! {

/// Why a string is not a repository identifier.
#[derive(Debug, Clone, Copy, PartialEq, Eq, Structural)]
pub enum Error {
    /// A component is empty or longer than 255 bytes.
    IllegalSize,
    /// A component starts or ends with a dot.
    IllegalDot,
    /// A component holds a character outside of the authorized set, or a
    /// repository name lacks its extension.
    IllegalFormat,
    /// The path does not consist of one or two normal components.
    MisformattedPath,
}

} // verus!
