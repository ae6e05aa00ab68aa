use vstd::prelude::*;

verus! {

/// Why an authority may not declare a repository.
#[derive(Debug, Clone, Copy, PartialEq, Eq, Structural)]
pub enum Error {
    /// The repository bears the reserved name: it is an authority itself.
    Reserved,
    /// The repository is outside of the scope of the authority.
    Foreign,
}

} // verus!
