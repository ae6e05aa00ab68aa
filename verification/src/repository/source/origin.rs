use vstd::prelude::*;

use super::error::Error;
use super::registry::{admission, in_scope, Registry};
use crate::repository::id::{Id, IdView};

verus! {

/// The authority of the whole server: it declares the repositories that live
/// outside of any namespace.
#[derive(Debug)]
pub struct Origin<D> {
    repositories: Registry<D>,
}

impl<D> View for Origin<D> {
    type V = Map<IdView, D>;

    closed spec fn view(&self) -> Map<IdView, D> {
        self.repositories@
    }
}

impl<D> Origin<D> {
    #[verifier::type_invariant]
    spec fn inv(self) -> bool {
        self.repositories.scope() is None
    }

    /// An origin that declares nothing.
    pub fn new() -> (r: Self)
        ensures
            r@ == Map::<IdView, D>::empty(),
    {
        Origin { repositories: Registry::new(None) }
    }

    /// The identifiers of the repositories declared, each of them once.
    pub fn ids(&self) -> (r: Vec<Id>)
        ensures
            r@.len() == self@.len(),
            forall|i: int| 0 <= i < r@.len() ==> self@.contains_key(#[trigger] r@[i]@),
            forall|key: IdView|
                self@.contains_key(key) ==> exists|i: int| 0 <= i < r@.len() && r@[i]@ == key,
            forall|i: int, j: int| 0 <= i < j < r@.len() ==> r@[i]@ != r@[j]@,
    {
        self.repositories.ids()
    }

    /// The number of repositories declared.
    pub fn len(&self) -> (n: usize)
        ensures
            n == self@.len(),
    {
        self.repositories.len()
    }

    /// Declares `id` with `definition`, in place of what the origin said of
    /// `id` before, and tells whether `id` is new to it. The origin declares
    /// plain repositories without namespace: any other `id` is refused, and
    /// nothing changes.
    pub fn declare(&mut self, id: Id, definition: D) -> (r: Result<bool, Error>)
        ensures
            match r {
                Ok(fresh) => {
                    &&& admission(None, id@) is Ok
                    &&& final(self)@ == old(self)@.insert(id@, definition)
                    &&& fresh == !old(self)@.contains_key(id@)
                },
                Err(e) => {
                    &&& admission(None, id@) == Err::<(), Error>(e)
                    &&& final(self)@ == old(self)@
                },
            },
    {
        let mut taken = Origin { repositories: Registry::new(None) };
        std::mem::swap(self, &mut taken);
        proof {
            use_type_invariant(&taken);
        }
        let Origin { repositories } = taken;
        let mut repositories = repositories;
        let r = repositories.insert(id, definition);
        *self = Origin { repositories };
        r
    }

    /// The definition of the repository `id`, if the origin declares it. What
    /// it declares is plain and has no namespace.
    pub fn repository(&self, id: &Id) -> (r: Option<&D>)
        ensures
            match r {
                Some(definition) => self@.contains_key(id@) && *definition == self@[id@],
                None => !self@.contains_key(id@),
            },
            self@.contains_key(id@) ==> in_scope(None, id@),
    {
        proof {
            use_type_invariant(self);
        }
        self.repositories.get(id)
    }
}

} // verus!
