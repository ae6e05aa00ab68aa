use vstd::prelude::*;
use vstd::std_specs::cmp::PartialEqSpecImpl;
use vstd::string::{StrSliceExecFns, StringExecFns};

use super::base::{check, is_base, Base};
use super::error::Error;
use crate::text::{chars_of, holds_at, same};

verus! {

/// The extension that marks a component as the name of a repository.
pub const REPOSITORY_NAME_EXT: &'static str = ".git";

/// The base of the name that a scope reserves for its source repository.
pub const SOURCE_REPOSITORY_NAME: &'static str = "?";

/// The characters of [`REPOSITORY_NAME_EXT`].
pub open spec fn ext() -> Seq<char> {
    seq!['.', 'g', 'i', 't']
}

/// The characters of [`SOURCE_REPOSITORY_NAME`].
pub open spec fn source_name() -> Seq<char> {
    seq!['?']
}

/// What is left of `s` without the extension at its end.
pub open spec fn stem(s: Seq<char>) -> Seq<char> {
    s.subrange(0, s.len() - ext().len())
}

/// Reads `s` as the name of a repository: a [`Base`] followed by the
/// extension. Gives the base.
pub open spec fn parse(s: Seq<char>) -> Result<Seq<char>, Error> {
    if !ext().is_suffix_of(s) {
        Err(Error::IllegalFormat)
    } else {
        match check(stem(s)) {
            Ok(_) => Ok(stem(s)),
            Err(e) => Err(e),
        }
    }
}

/// Writes down the name of a repository whose base is `name`.
pub open spec fn render(name: Seq<char>) -> Seq<char> {
    name + ext()
}

/// The two constants hold the characters that the grammar speaks of.
pub proof fn lemma_constants()
    ensures
        REPOSITORY_NAME_EXT@ == ext(),
        SOURCE_REPOSITORY_NAME@ == source_name(),
{
    reveal_strlit(".git");
    reveal_strlit("?");
}

/// The name of a repository: a [`Base`] that is written with the extension
/// behind it.
#[derive(Debug)]
pub struct Name(pub(crate) Base);

impl View for Name {
    type V = Seq<char>;

    closed spec fn view(&self) -> Seq<char> {
        self.0@
    }
}

impl Clone for Name {
    fn clone(&self) -> (r: Self)
        ensures
            r@ == self@,
    {
        proof {
            use_type_invariant(self);
        }
        Name(self.0.clone())
    }
}

impl PartialEq for Name {
    fn eq(&self, other: &Self) -> (r: bool) {
        self.0 == other.0
    }
}

impl Eq for Name {

}

impl PartialEqSpecImpl for Name {
    open spec fn obeys_eq_spec() -> bool {
        true
    }

    open spec fn eq_spec(&self, other: &Self) -> bool {
        self@ == other@
    }
}

impl Name {
    /// Every [`Name`] holds what `is_base` describes.
    #[verifier::type_invariant]
    pub open spec fn inv(self) -> bool {
        is_base(self@)
    }

    /// The name reserved for source repositories.
    pub fn source() -> (r: Name)
        ensures
            r@ == source_name(),
    {
        proof {
            lemma_constants();
        }
        match Base::from_str(SOURCE_REPOSITORY_NAME) {
            Ok(base) => Name(base),
            Err(_) => {
                proof {
                    super::base::lemma_check_accepts(source_name());
                }
                unreached()
            },
        }
    }

    /// Validates `s` as the name of a repository.
    pub fn from_str(s: &str) -> (r: Result<Name, Error>)
        ensures
            match r {
                Ok(name) => parse(s@) == Ok::<Seq<char>, Error>(name@),
                Err(e) => parse(s@) == Err::<Seq<char>, Error>(e),
            },
    {
        proof {
            lemma_constants();
        }
        let v = chars_of(s);
        let e = chars_of(REPOSITORY_NAME_EXT);
        let n: usize = v.len();
        let m: usize = e.len();
        if m > n || !holds_at(&v, n - m, &e) {
            return Err(Error::IllegalFormat);
        }
        match Base::from_str(s.substring_char(0, n - m)) {
            Ok(base) => {
                proof {
                    use_type_invariant(&base);
                }
                Ok(Name(base))
            },
            Err(e) => Err(e),
        }
    }

    /// The base of the name, without the extension.
    pub fn base(&self) -> (r: &Base)
        ensures
            r@ == self@,
    {
        &self.0
    }

    /// The base of the name as text, without the extension.
    pub fn as_str(&self) -> (r: &str)
        ensures
            r@ == self@,
            is_base(r@),
    {
        self.0.as_str()
    }

    /// Whether this is the name reserved for source repositories.
    pub fn is_source(&self) -> (r: bool)
        ensures
            r == (self@ == source_name()),
    {
        proof {
            lemma_constants();
        }
        same(self.0.as_str(), SOURCE_REPOSITORY_NAME)
    }

    /// The name as it is written in an identifier, extension included.
    pub fn to_string(&self) -> (r: String)
        ensures
            r@ == render(self@),
    {
        proof {
            lemma_constants();
        }
        String::from_str(self.0.as_str()).concat(REPOSITORY_NAME_EXT)
    }
}

} // verus!
