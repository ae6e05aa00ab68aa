use vstd::prelude::*;

use crate::text::same;

use super::error::Error;
use crate::repository::id::{Base, Id, IdView};

verus! {

/// Whether no identifier keys two of `entries`.
pub open spec fn distinct<D>(entries: Seq<(Id, D)>) -> bool {
    forall|i: int, j: int|
        0 <= i < j < entries.len() ==> (#[trigger] entries[i]).0@ != (#[trigger] entries[j]).0@
}

/// Whether `entries[i]` is keyed by `key`.
pub open spec fn keyed<D>(entries: Seq<(Id, D)>, i: int, key: IdView) -> bool {
    0 <= i < entries.len() && entries[i].0@ == key
}

/// The map that `entries` write down: each key with the definition that
/// stands beside it.
pub open spec fn as_map<D>(entries: Seq<(Id, D)>) -> Map<IdView, D> {
    Map::new(
        |key: IdView| exists|i: int| keyed(entries, i, key),
        |key: IdView| entries[choose|i: int| keyed(entries, i, key)].1,
    )
}

/// The verdict on declaring `id` in a registry over `scope`: the reserved
/// name is judged before the namespace.
pub open spec fn admission(scope: Option<Seq<char>>, id: IdView) -> Result<(), Error> {
    if id.is_source() {
        Err(Error::Reserved)
    } else if id.namespace != scope {
        Err(Error::Foreign)
    } else {
        Ok(())
    }
}

/// Whether an authority over `scope` may declare `id`: a plain repository of
/// that very scope, the top level (`None`) or one namespace.
pub open spec fn in_scope(scope: Option<Seq<char>>, id: IdView) -> bool {
    id.is_plain() && id.namespace == scope
}

/// Whether every key of `entries` is in `scope`.
pub open spec fn all_in_scope<D>(scope: Option<Seq<char>>, entries: Seq<(Id, D)>) -> bool {
    forall|i: int| 0 <= i < entries.len() ==> in_scope(scope, (#[trigger] entries[i]).0@)
}

/// The repositories that an authority declares, each under its [`Id`], with
/// what the authority says of it. An authority declares plain repositories of
/// its own scope only, each of them once.
#[derive(Debug)]
pub struct Registry<D> {
    scope: Option<Base>,
    entries: Vec<(Id, D)>,
}

impl<D> View for Registry<D> {
    type V = Map<IdView, D>;

    closed spec fn view(&self) -> Map<IdView, D> {
        as_map(self.entries@)
    }
}

impl<D> Registry<D> {
    #[verifier::type_invariant]
    spec fn inv(self) -> bool {
        distinct(self.entries@) && all_in_scope(self.scope(), self.entries@)
    }

    /// The scope of the authority: the namespace whose repositories it
    /// declares, or `None` for those of the top level.
    pub closed spec fn scope(self) -> Option<Seq<char>> {
        match self.scope {
            Some(namespace) => Some(namespace@),
            None => None,
        }
    }

    /// A registry over `scope` that declares nothing.
    pub fn new(scope: Option<Base>) -> (r: Self)
        ensures
            r@ == Map::<IdView, D>::empty(),
            r.scope() == match scope {
                Some(namespace) => Some(namespace@),
                None => None,
            },
    {
        let r = Registry { scope, entries: Vec::new() };
        r
    }

    /// The namespace whose repositories the registry declares, if it is not
    /// that of the top level.
    pub fn namespace(&self) -> (r: Option<&Base>)
        ensures
            match r {
                Some(namespace) => self.scope() == Some(namespace@),
                None => self.scope() is None,
            },
    {
        self.scope.as_ref()
    }

    /// Whether the registry may declare `id`.
    pub fn admits(&self, id: &Id) -> (r: Result<(), Error>)
        ensures
            r == admission(self.scope(), id@),
    {
        if id.is_source() {
            return Err(Error::Reserved);
        }
        let same = match (&self.scope, id.namespace()) {
            (Some(own), Some(other)) => same(own.as_str(), other),
            (None, None) => true,
            _ => false,
        };
        if same {
            Ok(())
        } else {
            Err(Error::Foreign)
        }
    }

    /// The number of repositories declared.
    pub fn len(&self) -> (n: usize)
        ensures
            n == self@.len(),
            self@.dom().finite(),
    {
        proof {
            use_type_invariant(self);
            lemma_len(self.entries@);
        }
        self.entries.len()
    }

    /// What the registry says of `id`, if it declares it. What it declares is
    /// in its scope.
    pub fn get(&self, id: &Id) -> (r: Option<&D>)
        ensures
            match r {
                Some(definition) => self@.contains_key(id@) && *definition == self@[id@],
                None => !self@.contains_key(id@),
            },
            self@.contains_key(id@) ==> in_scope(self.scope(), id@),
    {
        match locate(&self.entries, id) {
            Some(i) => {
                proof {
                    use_type_invariant(self);
                }
                Some(&self.entries[i].1)
            },
            None => None,
        }
    }

    /// Declares `id` with `definition`, in place of what the registry said of
    /// `id` before, and tells whether `id` is new to the registry. An `id`
    /// that the registry may not declare is refused, and nothing changes.
    pub fn insert(&mut self, id: Id, definition: D) -> (r: Result<bool, Error>)
        ensures
            final(self).scope() == old(self).scope(),
            match r {
                Ok(fresh) => {
                    &&& admission(old(self).scope(), id@) is Ok
                    &&& final(self)@ == old(self)@.insert(id@, definition)
                    &&& fresh == !old(self)@.contains_key(id@)
                },
                Err(e) => {
                    &&& admission(old(self).scope(), id@) == Err::<(), Error>(e)
                    &&& final(self)@ == old(self)@
                },
            },
    {
        match self.admits(&id) {
            Err(e) => Err(e),
            Ok(_) => {
                let mut taken = Registry { scope: None, entries: Vec::new() };
                std::mem::swap(self, &mut taken);
                proof {
                    use_type_invariant(&taken);
                }
                let Registry { scope, entries } = taken;
                let mut entries = entries;
                let fresh = put(&mut entries, id, definition);
                *self = Registry { scope, entries };
                Ok(fresh)
            },
        }
    }

    /// The identifiers that the registry declares, each of them once.
    pub fn ids(&self) -> (r: Vec<Id>)
        ensures
            r@.len() == self@.len(),
            forall|i: int| 0 <= i < r@.len() ==> self@.contains_key(#[trigger] r@[i]@),
            forall|key: IdView|
                self@.contains_key(key) ==> exists|i: int| 0 <= i < r@.len() && r@[i]@ == key,
            forall|i: int, j: int| 0 <= i < j < r@.len() ==> r@[i]@ != r@[j]@,
    {
        proof {
            use_type_invariant(self);
            lemma_len(self.entries@);
        }
        let n: usize = self.entries.len();
        let mut r: Vec<Id> = Vec::new();
        let mut i: usize = 0;
        while i < n
            invariant
                n == self.entries.len(),
                i <= n,
                r@.len() == i,
                forall|j: int| 0 <= j < i ==> (#[trigger] r@[j])@ == self.entries@[j].0@,
            decreases n - i,
        {
            r.push(self.entries[i].0.clone());
            i = i + 1;
        }
        proof {
            assert forall|j: int| 0 <= j < r@.len() implies self@.contains_key(
                #[trigger] r@[j]@,
            ) by {
                assert(keyed(self.entries@, j, r@[j]@));
            }
            assert forall|key: IdView| self@.contains_key(key) implies exists|j: int|
                0 <= j < r@.len() && r@[j]@ == key by {
                let j = choose|j: int| keyed(self.entries@, j, key);
                assert(r@[j]@ == key);
            }
        }
        r
    }

    /// Whether the registry declares `id`.
    pub fn contains(&self, id: &Id) -> (r: bool)
        ensures
            r == self@.contains_key(id@),
    {
        self.get(id).is_some()
    }
}

/// The index of the entry of `entries` that is keyed by `id`, if there is one.
fn locate<D>(entries: &Vec<(Id, D)>, id: &Id) -> (r: Option<usize>)
    ensures
        match r {
            Some(i) => keyed(entries@, i as int, id@),
            None => !as_map(entries@).contains_key(id@),
        },
{
    let n: usize = entries.len();
    let mut i: usize = 0;
    while i < n
        invariant
            n == entries.len(),
            i <= n,
            forall|j: int| 0 <= j < i ==> !keyed(entries@, j, id@),
        decreases n - i,
    {
        if entries[i].0 == *id {
            return Some(i);
        }
        i = i + 1;
    }
    None
}

/// Writes `definition` under `id` into `entries`: over the entry that `id`
/// keys, or else at the end.
fn put<D>(entries: &mut Vec<(Id, D)>, id: Id, definition: D) -> (fresh: bool)
    requires
        distinct(old(entries)@),
    ensures
        distinct(final(entries)@),
        final(entries)@.len() >= old(entries)@.len(),
        forall|i: int|
            0 <= i < old(entries)@.len() ==> (#[trigger] final(entries)@[i]).0@
                == old(entries)@[i].0@,
        forall|i: int|
            old(entries)@.len() <= i < final(entries)@.len() ==> (#[trigger] final(entries)@[i]).0@
                == id@,
        as_map(final(entries)@) == as_map(old(entries)@).insert(id@, definition),
        fresh == !as_map(old(entries)@).contains_key(id@),
{
    let ghost before = entries@;
    let ghost key = id@;
    match locate(entries, &id) {
        Some(i) => {
            entries.set(i, (id, definition));
            proof {
                let after = entries@;
                assert(as_map(after) =~= as_map(before).insert(key, definition)) by {
                    assert forall|k: IdView| #[trigger]
                        as_map(after).contains_key(k) == as_map(before).insert(
                            key,
                            definition,
                        ).contains_key(k) by {
                        if as_map(after).contains_key(k) {
                            let j = choose|j: int| keyed(after, j, k);
                            assert(keyed(before, j, k));
                        }
                        if as_map(before).contains_key(k) {
                            let j = choose|j: int| keyed(before, j, k);
                            assert(keyed(after, j, k));
                        }
                    }
                }
            }
            false
        },
        None => {
            entries.push((id, definition));
            proof {
                let after = entries@;
                let n = before.len() as int;
                assert(distinct(after)) by {
                    assert forall|a: int, b: int| 0 <= a < b < after.len() implies (
                    #[trigger] after[a]).0@ != (#[trigger] after[b]).0@ by {
                        if b >= n {
                            assert(!keyed(before, a, key));
                        }
                    }
                }
                assert(as_map(after) =~= as_map(before).insert(key, definition)) by {
                    assert forall|k: IdView| #[trigger]
                        as_map(after).contains_key(k) == as_map(before).insert(
                            key,
                            definition,
                        ).contains_key(k) by {
                        if as_map(after).contains_key(k) {
                            let j = choose|j: int| keyed(after, j, k);
                            if j < n {
                                assert(keyed(before, j, k));
                            }
                        }
                        if as_map(before).contains_key(k) {
                            let j = choose|j: int| keyed(before, j, k);
                            assert(keyed(after, j, k));
                        }
                        if k == key {
                            assert(keyed(after, n, k));
                        }
                    }
                }
            }
            true
        },
    }
}

/// A list without repeated keys writes down as many keys as it has entries.
proof fn lemma_len<D>(entries: Seq<(Id, D)>)
    requires
        distinct(entries),
    ensures
        as_map(entries).dom().finite(),
        as_map(entries).len() == entries.len(),
    decreases entries.len(),
{
    if entries.len() == 0 {
        assert(as_map(entries) =~= Map::<IdView, D>::empty());
    } else {
        let rest = entries.drop_last();
        let last = entries.last();
        lemma_len(rest);
        assert(as_map(entries).dom() =~= as_map(rest).dom().insert(last.0@)) by {
            assert forall|k: IdView| as_map(entries).dom().contains(k) == as_map(rest).dom().insert(
                last.0@,
            ).contains(k) by {
                if as_map(entries).dom().contains(k) {
                    let j = choose|j: int| keyed(entries, j, k);
                    if j < rest.len() {
                        assert(keyed(rest, j, k));
                    }
                }
                if as_map(rest).dom().contains(k) {
                    let j = choose|j: int| keyed(rest, j, k);
                    assert(keyed(entries, j, k));
                }
                if k == last.0@ {
                    assert(keyed(entries, entries.len() - 1, k));
                }
            }
        }
    }
}

} // verus!
