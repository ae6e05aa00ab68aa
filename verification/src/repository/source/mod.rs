//! Repository, namespace and system-wide config handling.

use vstd::prelude::*;

use super::id::{Id, IdView};

pub mod error;
pub mod namespace;
pub mod origin;
pub mod registry;

pub use error::Error;
pub use namespace::{Namespace, NamespaceView, Visibility};
pub use origin::Origin;
pub use registry::Registry;

verus! {

/// The in-repository path to the source file.
pub const PATH: &'static str = "seed.toml";

/// The two kinds of authority.
#[derive(Debug, Clone, Copy, PartialEq, Eq, Structural)]
pub enum Kind {
    /// The authority of the whole server.
    Origin,
    /// The authority of one namespace.
    Namespace,
}

/// The kind of authority that governs `id`: the origin where `id` has no
/// namespace, the authority of its namespace where it has one.
pub open spec fn governing_kind(id: IdView) -> Kind {
    if id.namespace is None {
        Kind::Origin
    } else {
        Kind::Namespace
    }
}

/// Finds the authority that governs `id`: the identifier of its source
/// repository, which keeps the namespace of `id` and bears the reserved name,
/// and the kind of authority to read from it.
pub fn governing(id: &Id) -> (r: (Id, Kind))
    ensures
        r.0@ == id@.to_source(),
        r.1 == governing_kind(id@),
{
    let kind = if id.namespace().is_none() {
        Kind::Origin
    } else {
        Kind::Namespace
    };
    (id.to_source(), kind)
}

/// The governing authority of any identifier is a source repository of the
/// kind that the namespace calls for, it is as valid as the identifier, and
/// it governs itself.
pub proof fn lemma_governing(id: IdView)
    ensures
        !id.to_source().is_plain(),
        id.to_source().is_origin_source() <==> governing_kind(id) == Kind::Origin,
        id.to_source().is_namespace_source() <==> governing_kind(id) == Kind::Namespace,
        id.wf() ==> id.to_source().wf(),
        id.to_source().to_source() == id.to_source(),
        governing_kind(id.to_source()) == governing_kind(id),
{
}

/// An authority as read from its source repository.
#[derive(Debug)]
pub enum Authority<D> {
    /// The authority of the whole server.
    Origin(Origin<D>),
    /// The authority of one namespace.
    Namespace(Namespace<D>),
}

impl<D> Authority<D> {
    /// The kind of the authority.
    pub open spec fn kind(self) -> Kind {
        match self {
            Authority::Origin(_) => Kind::Origin,
            Authority::Namespace(_) => Kind::Namespace,
        }
    }

    /// What the authority declares.
    pub open spec fn repositories(self) -> Map<IdView, D> {
        match self {
            Authority::Origin(origin) => origin@,
            Authority::Namespace(namespace) => namespace@.repositories,
        }
    }

    /// Whether this is the authority of the scope of `id`: the origin for an
    /// identifier without namespace, else the authority of that namespace.
    pub open spec fn governs(self, id: IdView) -> bool {
        match self {
            Authority::Origin(_) => id.namespace is None,
            Authority::Namespace(namespace) => id.namespace == Some(namespace@.namespace),
        }
    }

    /// Whether the authority declares the repository `id`.
    pub open spec fn defines(self, id: IdView) -> bool {
        self.repositories().contains_key(id)
    }

    /// The definition of the repository `id`, if the authority declares it.
    /// An authority declares plain repositories of its own scope only.
    pub fn repository(&self, id: &Id) -> (r: Option<&D>)
        ensures
            match r {
                Some(definition) => self.defines(id@) && *definition == self.repositories()[id@],
                None => !self.defines(id@),
            },
            self.defines(id@) ==> id@.is_plain() && self.governs(id@),
    {
        match self {
            Authority::Origin(origin) => origin.repository(id),
            Authority::Namespace(namespace) => namespace.repository(id),
        }
    }

    /// Whether this is the authority of the scope of `id`.
    pub fn is_governing(&self, id: &Id) -> (r: bool)
        ensures
            r == self.governs(id@),
    {
        match self {
            Authority::Origin(_) => id.namespace().is_none(),
            Authority::Namespace(namespace) => match id.namespace() {
                Some(other) => crate::text::same(namespace.namespace().as_str(), other),
                None => false,
            },
        }
    }
}

} // verus!
