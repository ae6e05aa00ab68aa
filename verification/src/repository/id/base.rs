use vstd::prelude::*;
use vstd::std_specs::cmp::PartialEqSpecImpl;
use vstd::utf8::{encode_utf8, is_ascii_chars_encode_utf8};

use super::error::Error;
use crate::text::chars_of;

verus! {

/// The largest size of a [`Base`], in bytes.
pub const MAX_SIZE: usize = 255;

/// Whether `c` may occur in a [`Base`].
pub open spec fn authorized(c: char) -> bool {
    ('0' <= c <= '9') || ('A' <= c <= 'Z') || ('a' <= c <= 'z') || c == '_' || c == '-' || c == '?'
        || c == '.'
}

/// Whether every character of `s` may occur in a [`Base`].
pub open spec fn all_authorized(s: Seq<char>) -> bool {
    forall|i: int| 0 <= i < s.len() ==> authorized(#[trigger] s[i])
}

/// The size of `s` once written down as UTF-8, in bytes.
pub open spec fn size(s: Seq<char>) -> nat {
    encode_utf8(s).len()
}

/// The verdict on a would-be [`Base`]: the first rule that `s` breaks, in the
/// order size, dots, characters.
pub open spec fn check(s: Seq<char>) -> Result<(), Error> {
    if s.len() == 0 || size(s) > MAX_SIZE {
        Err(Error::IllegalSize)
    } else if s.first() == '.' || s.last() == '.' {
        Err(Error::IllegalDot)
    } else if !all_authorized(s) {
        Err(Error::IllegalFormat)
    } else {
        Ok(())
    }
}

/// What a [`Base`] holds: between 1 and 255 authorized characters, with no
/// dot at either end.
pub open spec fn is_base(s: Seq<char>) -> bool {
    &&& 1 <= s.len() <= MAX_SIZE
    &&& s.first() != '.'
    &&& s.last() != '.'
    &&& all_authorized(s)
}

/// Authorized characters take one byte each.
pub proof fn lemma_authorized_size(s: Seq<char>)
    requires
        all_authorized(s),
    ensures
        size(s) == s.len(),
{
    is_ascii_chars_encode_utf8(s);
}

/// A component is accepted exactly when it has between 1 and 255 characters,
/// all of them authorized, and no dot at either end.
pub proof fn lemma_check_accepts(s: Seq<char>)
    ensures
        check(s) is Ok <==> is_base(s),
{
    if all_authorized(s) {
        lemma_authorized_size(s);
    }
}

/// A component that starts or ends with a dot is refused, whatever else it
/// holds.
pub proof fn lemma_check_refuses_dots(s: Seq<char>)
    requires
        s.len() > 0,
        s.first() == '.' || s.last() == '.',
    ensures
        check(s) is Err,
{
}

/// A valid base for either a namespace or a repository name.
#[derive(Debug)]
pub struct Base(pub(crate) String);

impl View for Base {
    type V = Seq<char>;

    closed spec fn view(&self) -> Seq<char> {
        self.0@
    }
}

impl Clone for Base {
    fn clone(&self) -> (r: Self)
        ensures
            r@ == self@,
    {
        proof {
            use_type_invariant(self);
        }
        Base(self.0.clone())
    }
}

impl PartialEq for Base {
    fn eq(&self, other: &Self) -> (r: bool) {
        self.0 == other.0
    }
}

impl Eq for Base {

}

impl PartialEqSpecImpl for Base {
    open spec fn obeys_eq_spec() -> bool {
        true
    }

    open spec fn eq_spec(&self, other: &Self) -> bool {
        self@ == other@
    }
}

impl Base {
    /// Every [`Base`] holds what `is_base` describes.
    #[verifier::type_invariant]
    pub open spec fn inv(self) -> bool {
        is_base(self@)
    }

    /// Whether `c` may occur in a [`Base`].
    pub fn is_authorized(c: char) -> (ok: bool)
        ensures
            ok == authorized(c),
    {
        ('0' <= c && c <= '9') || ('A' <= c && c <= 'Z') || ('a' <= c && c <= 'z') || c == '_'
            || c == '-' || c == '?' || c == '.'
    }

    /// Validates `s` as a [`Base`].
    pub fn from_str(s: &str) -> (r: Result<Base, Error>)
        ensures
            match r {
                Ok(base) => check(s@) is Ok && base@ == s@,
                Err(e) => check(s@) == Err::<(), Error>(e),
            },
    {
        if s.is_empty() || s.as_bytes().len() > MAX_SIZE {
            return Err(Error::IllegalSize);
        }
        let v = chars_of(s);
        let n: usize = v.len();
        if v[0] == '.' || v[n - 1] == '.' {
            return Err(Error::IllegalDot);
        }
        let mut i: usize = 0;
        while i < n
            invariant
                v@ == s@,
                n == v.len(),
                0 < n,
                i <= n,
                size(s@) <= MAX_SIZE,
                s@.first() != '.',
                s@.last() != '.',
                forall|j: int| 0 <= j < i ==> authorized(#[trigger] s@[j]),
            decreases n - i,
        {
            if !Self::is_authorized(v[i]) {
                return Err(Error::IllegalFormat);
            }
            i = i + 1;
        }
        proof {
            lemma_authorized_size(s@);
        }
        Ok(Base(s.to_owned()))
    }

    /// The text of the base.
    pub fn as_str(&self) -> (r: &str)
        ensures
            r@ == self@,
            is_base(r@),
    {
        proof {
            use_type_invariant(self);
        }
        self.0.as_str()
    }
}

} // verus!
