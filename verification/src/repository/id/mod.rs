//! Repository identifier parsing, handling and validation primitives.

use vstd::prelude::*;
use vstd::std_specs::cmp::PartialEqSpecImpl;
use vstd::string::{StrSliceExecFns, StringExecFns};

use crate::text::{chars_of, find, lemma_split_len, run, skip};

pub mod base;
pub mod error;
pub mod laws;
pub mod name;
pub mod path;

pub use base::Base;
pub use error::Error;
pub use name::{Name, REPOSITORY_NAME_EXT, SOURCE_REPOSITORY_NAME};

use base::{check, is_base};
use name::source_name;
use path::{
    adjoin, all_normal, components, is_absolute, join, normal, SEPARATOR, SEPARATOR_STR,
};

verus! {

/// What an [`Id`] stands for: the characters of its namespace, if it has one,
/// and those of the base of its repository name.
pub struct IdView {
    pub namespace: Option<Seq<char>>,
    pub repository: Seq<char>,
}

impl IdView {
    /// Both segments are what a [`Base`] holds.
    pub open spec fn wf(self) -> bool {
        &&& self.namespace matches Some(namespace) ==> is_base(namespace)
        &&& is_base(self.repository)
    }

    /// Whether the repository bears the reserved name.
    pub open spec fn is_source(self) -> bool {
        self.repository == source_name()
    }

    /// The source repository of the whole server: the reserved name, no
    /// namespace.
    pub open spec fn is_origin_source(self) -> bool {
        self.namespace is None && self.is_source()
    }

    /// The source repository of a namespace: the reserved name, in a
    /// namespace.
    pub open spec fn is_namespace_source(self) -> bool {
        self.namespace is Some && self.is_source()
    }

    /// Any repository that does not bear the reserved name.
    pub open spec fn is_plain(self) -> bool {
        !self.is_source()
    }

    /// The source repository of the scope: the same namespace, the reserved
    /// name.
    pub open spec fn to_source(self) -> IdView {
        IdView { namespace: self.namespace, repository: source_name() }
    }
}

/// The source repository of the whole server.
pub open spec fn origin() -> IdView {
    IdView { namespace: None, repository: source_name() }
}

/// Reads `s` as an identifier. Separators at the front are dropped; what is
/// left must be one or two normal components, a repository name with an
/// optional namespace before it. The namespace is judged before the name.
pub open spec fn parse(s: Seq<char>) -> Result<IdView, Error> {
    let parts = components(s.skip(run(s, SEPARATOR)));
    if !(parts.len() == 1 || parts.len() == 2) || !all_normal(parts) {
        Err(Error::MisformattedPath)
    } else if parts.len() == 1 {
        match name::parse(parts[0]) {
            Ok(repository) => Ok(IdView { namespace: None, repository }),
            Err(e) => Err(e),
        }
    } else {
        match check(parts[0]) {
            Err(e) => Err(e),
            Ok(_) => match name::parse(parts[1]) {
                Ok(repository) => Ok(IdView { namespace: Some(parts[0]), repository }),
                Err(e) => Err(e),
            },
        }
    }
}

/// Writes `id` down: `namespace/repository`, or `repository` alone, the
/// repository with its extension.
pub open spec fn render(id: IdView) -> Seq<char> {
    match id.namespace {
        Some(namespace) => namespace + seq![SEPARATOR] + name::render(id.repository),
        None => name::render(id.repository),
    }
}

/// A repository [`Id`] is a path of one or two normal components: an
/// optional namespace, parsed as a [`Base`], and the name of a repository,
/// parsed as a [`Name`].
#[derive(Debug)]
pub struct Id {
    namespace: Option<Base>,
    repository: Name,
}

impl View for Id {
    type V = IdView;

    closed spec fn view(&self) -> IdView {
        IdView {
            namespace: match self.namespace {
                Some(namespace) => Some(namespace@),
                None => None,
            },
            repository: self.repository@,
        }
    }
}

impl Clone for Id {
    fn clone(&self) -> (r: Self)
        ensures
            r@ == self@,
    {
        Id {
            namespace: match &self.namespace {
                Some(namespace) => Some(namespace.clone()),
                None => None,
            },
            repository: self.repository.clone(),
        }
    }
}

impl PartialEq for Id {
    fn eq(&self, other: &Self) -> (r: bool) {
        let namespaces = match (&self.namespace, &other.namespace) {
            (Some(a), Some(b)) => a == b,
            (None, None) => true,
            _ => false,
        };
        namespaces && self.repository == other.repository
    }
}

impl Eq for Id {

}

impl PartialEqSpecImpl for Id {
    open spec fn obeys_eq_spec() -> bool {
        true
    }

    open spec fn eq_spec(&self, other: &Self) -> bool {
        self@ == other@
    }
}

/// The repository type regarding its [`Id`].
#[derive(Debug)]
pub enum Type<'i> {
    /// The source repository of the whole server.
    OriginSource(&'i Id),
    /// The source repository of a namespace.
    NamespaceSource(&'i Id),
    /// Any other repository.
    Plain(&'i Id),
}

impl<'i> Type<'i> {
    /// The identifier that was classified.
    pub open spec fn id(self) -> &'i Id {
        match self {
            Type::OriginSource(id) => id,
            Type::NamespaceSource(id) => id,
            Type::Plain(id) => id,
        }
    }
}

impl Id {
    /// Get the [`Id`] of the origin source's repository.
    pub fn origin() -> (r: Self)
        ensures
            r@ == origin(),
    {
        Self { namespace: None, repository: Name::source() }
    }

    /// The namespace of the repository, if it has one.
    pub fn namespace(&self) -> (r: Option<&str>)
        ensures
            match r {
                Some(namespace) => self@.namespace == Some(namespace@),
                None => self@.namespace is None,
            },
            self@.wf(),
    {
        proof {
            use_type_invariant(&self.repository);
        }
        match &self.namespace {
            Some(namespace) => Some(namespace.as_str()),
            None => None,
        }
    }

    /// The name of the repository.
    pub fn repository(&self) -> (r: &Name)
        ensures
            r@ == self@.repository,
            self@.wf(),
    {
        proof {
            use_type_invariant(&self.repository);
            if let Some(namespace) = &self.namespace {
                use_type_invariant(namespace);
            }
        }
        &self.repository
    }

    /// Classifies the repository by its [`Id`].
    pub fn as_type(&self) -> (r: Type<'_>)
        ensures
            r.id() == self,
            r is OriginSource <==> self@.is_origin_source(),
            r is NamespaceSource <==> self@.is_namespace_source(),
            r is Plain <==> self@.is_plain(),
    {
        match &self.namespace {
            None if self.is_source() => Type::OriginSource(self),
            Some(_) if self.is_source() => Type::NamespaceSource(self),
            _ => Type::Plain(self),
        }
    }

    /// Whether this is the source repository of its scope.
    pub fn is_source(&self) -> (r: bool)
        ensures
            r == self@.is_source(),
    {
        self.repository.is_source()
    }

    /// Constructs the source repository [`Id`]
    /// from the current `namespace`:`repository` couple.
    pub fn to_source(&self) -> (r: Self)
        ensures
            r@ == self@.to_source(),
    {
        Self {
            namespace: match &self.namespace {
                Some(namespace) => Some(namespace.clone()),
                None => None,
            },
            repository: Name::source(),
        }
    }

    /// Converts the current [`Id`] to a path in the `storage` path: the
    /// identifier as it is written, adjoined to `storage`. What is adjoined is
    /// relative and made of normal components, so the path stays within
    /// `storage`.
    pub fn to_path(&self, storage: &str) -> (r: String)
        ensures
            r@ == join(storage@, render(self@)),
            !is_absolute(render(self@)),
            all_normal(components(render(self@))),
            storage@.is_prefix_of(r@),
            render(self@).is_suffix_of(r@),
    {
        proof {
            use_type_invariant(&self.repository);
            if let Some(namespace) = &self.namespace {
                use_type_invariant(namespace);
            }
            laws::lemma_path_within_storage(storage@, self@);
        }
        let rel = self.to_string();
        adjoin(storage, rel.as_str())
    }

    /// The identifier as it is written: `namespace/repository`, or
    /// `repository` alone.
    pub fn to_string(&self) -> (r: String)
        ensures
            r@ == render(self@),
    {
        let repository = self.repository.to_string();
        match &self.namespace {
            Some(namespace) => {
                proof {
                    reveal_strlit("/");
                }
                String::from_str(namespace.as_str()).concat(SEPARATOR_STR).concat(
                    repository.as_str(),
                )
            },
            None => repository,
        }
    }

    /// Parses `s` as an [`Id`].
    pub fn from_str(s: &str) -> (r: Result<Self, Error>)
        ensures
            match r {
                Ok(id) => parse(s@) == Ok::<IdView, Error>(id@) && id@.wf(),
                Err(e) => parse(s@) == Err::<IdView, Error>(e),
            },
    {
        proof {
            if parse(s@) is Ok {
                laws::lemma_parse_wf(s@);
            }
        }
        let v = chars_of(s);
        let n: usize = v.len();
        let start: usize = skip(&v, SEPARATOR);
        let first: usize = find(&v, start, SEPARATOR);
        let ghost body = s@.skip(start as int);
        if first == n {
            if !normal(&v, start, n) {
                return Err(Error::MisformattedPath);
            }
            match Name::from_str(s.substring_char(start, n)) {
                Ok(repository) => Ok(Self { namespace: None, repository }),
                Err(e) => Err(e),
            }
        } else {
            let second: usize = find(&v, first + 1, SEPARATOR);
            let ghost head = body.subrange(0, first - start);
            let ghost tail = body.subrange(first - start + 1, body.len() as int);
            assert(head =~= v@.subrange(start as int, first as int));
            assert(tail =~= v@.subrange(first + 1, n as int));
            assert(components(body) =~= seq![head] + components(tail));
            if second < n {
                proof {
                    lemma_split_len(tail.subrange(second - first, tail.len() as int), SEPARATOR);
                }
                return Err(Error::MisformattedPath);
            }
            if !normal(&v, start, first) {
                return Err(Error::MisformattedPath);
            }
            if !normal(&v, first + 1, n) {
                return Err(Error::MisformattedPath);
            }
            match Base::from_str(s.substring_char(start, first)) {
                Err(e) => Err(e),
                Ok(namespace) => match Name::from_str(s.substring_char(first + 1, n)) {
                    Ok(repository) => Ok(Self { namespace: Some(namespace), repository }),
                    Err(e) => Err(e),
                },
            }
        }
    }
}

} // verus!
