use vstd::prelude::*;

use super::error::Error;
use super::registry::{admission, in_scope, Registry};
use crate::repository::id::{Base, Id, IdView};

verus! {

/// Who may see the repositories of a namespace, where nothing more is said
/// of one of them.
#[derive(Debug, Clone, Copy, PartialEq, Eq, Structural)]
pub enum Visibility {
    /// Anyone may.
    Public,
    /// Only who was let in.
    Private,
}

/// What a [`Namespace`] stands for.
pub struct NamespaceView<D> {
    /// The namespace that the authority speaks for.
    pub namespace: Seq<char>,
    /// The visibility of the namespace as a whole.
    pub visibility: Visibility,
    /// The repositories declared, each under its identifier.
    pub repositories: Map<IdView, D>,
}

/// The authority of one namespace: it declares the repositories that live in
/// it, and says how visible the namespace is.
#[derive(Debug)]
pub struct Namespace<D> {
    visibility: Visibility,
    repositories: Registry<D>,
}

impl<D> View for Namespace<D> {
    type V = NamespaceView<D>;

    closed spec fn view(&self) -> NamespaceView<D> {
        NamespaceView {
            namespace: self.repositories.scope()->Some_0,
            visibility: self.visibility,
            repositories: self.repositories@,
        }
    }
}

impl<D> Namespace<D> {
    #[verifier::type_invariant]
    spec fn inv(self) -> bool {
        self.repositories.scope() is Some
    }

    /// The authority of `namespace`, with the given `visibility` and nothing
    /// declared.
    pub fn new(namespace: Base, visibility: Visibility) -> (r: Self)
        ensures
            r@ == (NamespaceView {
                namespace: namespace@,
                visibility,
                repositories: Map::<IdView, D>::empty(),
            }),
    {
        Namespace { visibility, repositories: Registry::new(Some(namespace)) }
    }

    /// The namespace that the authority speaks for.
    pub fn namespace(&self) -> (r: &Base)
        ensures
            r@ == self@.namespace,
    {
        proof {
            use_type_invariant(self);
        }
        match self.repositories.namespace() {
            Some(namespace) => namespace,
            None => unreached(),
        }
    }

    /// The visibility of the namespace as a whole.
    pub fn visibility(&self) -> (r: Visibility)
        ensures
            r == self@.visibility,
    {
        self.visibility
    }

    /// The identifiers of the repositories declared, each of them once.
    pub fn ids(&self) -> (r: Vec<Id>)
        ensures
            r@.len() == self@.repositories.len(),
            forall|i: int| 0 <= i < r@.len() ==> self@.repositories.contains_key(#[trigger] r@[i]@),
            forall|key: IdView|
                self@.repositories.contains_key(key) ==> exists|i: int| 0 <= i < r@.len() && r@[i]@ == key,
            forall|i: int, j: int| 0 <= i < j < r@.len() ==> r@[i]@ != r@[j]@,
    {
        self.repositories.ids()
    }

    /// The number of repositories declared.
    pub fn len(&self) -> (n: usize)
        ensures
            n == self@.repositories.len(),
    {
        self.repositories.len()
    }

    /// Declares `id` with `definition`, in place of what the authority said of
    /// `id` before, and tells whether `id` is new to it. The authority
    /// declares plain repositories of its own namespace: any other `id` is
    /// refused, and nothing changes.
    pub fn declare(&mut self, id: Id, definition: D) -> (r: Result<bool, Error>)
        ensures
            final(self)@.namespace == old(self)@.namespace,
            final(self)@.visibility == old(self)@.visibility,
            match r {
                Ok(fresh) => {
                    &&& admission(Some(old(self)@.namespace), id@) is Ok
                    &&& final(self)@.repositories == old(self)@.repositories.insert(
                        id@,
                        definition,
                    )
                    &&& fresh == !old(self)@.repositories.contains_key(id@)
                },
                Err(e) => {
                    &&& admission(Some(old(self)@.namespace), id@) == Err::<(), Error>(e)
                    &&& final(self)@.repositories == old(self)@.repositories
                },
            },
    {
        let mut taken = Namespace {
            visibility: self.visibility,
            repositories: Registry::new(Some(self.namespace().clone())),
        };
        std::mem::swap(self, &mut taken);
        proof {
            use_type_invariant(&taken);
        }
        let Namespace { visibility, repositories } = taken;
        let mut repositories = repositories;
        let r = repositories.insert(id, definition);
        *self = Namespace { visibility, repositories };
        r
    }

    /// The definition of the repository `id`, if the authority declares it.
    /// What it declares is plain and lives in its namespace.
    pub fn repository(&self, id: &Id) -> (r: Option<&D>)
        ensures
            match r {
                Some(definition) => self@.repositories.contains_key(id@) && *definition
                    == self@.repositories[id@],
                None => !self@.repositories.contains_key(id@),
            },
            self@.repositories.contains_key(id@) ==> in_scope(Some(self@.namespace), id@),
    {
        proof {
            use_type_invariant(self);
        }
        self.repositories.get(id)
    }
}

} // verus!
