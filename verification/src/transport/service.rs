use vstd::prelude::*;
use vstd::string::StrSliceExecFns;

use crate::repository::id;
use crate::repository::id::{Id, IdView};
use crate::text::{chars_of, holds_at};

verus! {

/// How a request to fetch from a repository starts, up to the quote that
/// opens the path.
pub const UPLOAD_PACK: &'static str = "git-upload-pack '";

/// How a request to push to a repository starts, up to the quote that opens
/// the path.
pub const RECEIVE_PACK: &'static str = "git-receive-pack '";

/// The quote that closes the path.
pub const QUOTE: char = '\'';

/// Why a request is refused.
#[derive(Debug, Clone, Copy, PartialEq, Eq, Structural)]
pub enum Error {
    /// The request does not name a service with a quoted path behind it.
    Malformed,
    /// The path is not the identifier of a repository.
    Repository(id::Error),
}

/// The service that a client asks for.
#[derive(Debug)]
pub enum Service {
    /// Fetching from `repository`.
    GitUploadPack { repository: Id },
    /// Pushing to `repository`.
    GitReceivePack { repository: Id },
}

/// What a [`Service`] stands for.
pub enum ServiceView {
    GitUploadPack { repository: IdView },
    GitReceivePack { repository: IdView },
}

impl View for Service {
    type V = ServiceView;

    open spec fn view(&self) -> ServiceView {
        match self {
            Service::GitUploadPack { repository } => ServiceView::GitUploadPack {
                repository: repository@,
            },
            Service::GitReceivePack { repository } => ServiceView::GitReceivePack {
                repository: repository@,
            },
        }
    }
}

/// The path of a request that starts with `opening`: what stands between
/// `opening` and the quote at the very end, if `s` has both.
pub open spec fn quoted(opening: Seq<char>, s: Seq<char>) -> Option<Seq<char>> {
    if opening.is_prefix_of(s) && s.len() > opening.len() && s.last() == QUOTE {
        Some(s.subrange(opening.len() as int, s.len() - 1))
    } else {
        None
    }
}

/// Reads `s` as a request: the name of a service, a space, and the
/// identifier of a repository between quotes.
pub open spec fn parse(s: Seq<char>) -> Result<ServiceView, Error> {
    if let Some(path) = quoted(UPLOAD_PACK@, s) {
        match id::parse(path) {
            Ok(repository) => Ok(ServiceView::GitUploadPack { repository }),
            Err(e) => Err(Error::Repository(e)),
        }
    } else if let Some(path) = quoted(RECEIVE_PACK@, s) {
        match id::parse(path) {
            Ok(repository) => Ok(ServiceView::GitReceivePack { repository }),
            Err(e) => Err(Error::Repository(e)),
        }
    } else {
        Err(Error::Malformed)
    }
}

/// The path of the request `v`, which is `s`, where it starts with `opening`.
fn path_of<'a>(s: &'a str, v: &Vec<char>, opening: &str) -> (r: Option<&'a str>)
    requires
        v@ == s@,
    ensures
        match r {
            Some(path) => quoted(opening@, s@) == Some(path@),
            None => quoted(opening@, s@) is None,
        },
{
    let o = chars_of(opening);
    let n: usize = v.len();
    if holds_at(v, 0, &o) && n > o.len() && v[n - 1] == QUOTE {
        Some(s.substring_char(o.len(), n - 1))
    } else {
        None
    }
}

impl Service {
    /// The repository that the service is asked for.
    pub fn repository(&self) -> (r: &Id)
        ensures
            r@ == match self@ {
                ServiceView::GitUploadPack { repository } => repository,
                ServiceView::GitReceivePack { repository } => repository,
            },
    {
        match self {
            Service::GitUploadPack { repository } => repository,
            Service::GitReceivePack { repository } => repository,
        }
    }

    /// Parses a request of the form `<service> '<path>'`.
    pub fn from_str(s: &str) -> (r: Result<Service, Error>)
        ensures
            match r {
                Ok(service) => parse(s@) == Ok::<ServiceView, Error>(service@),
                Err(e) => parse(s@) == Err::<ServiceView, Error>(e),
            },
    {
        let v = chars_of(s);
        if let Some(path) = path_of(s, &v, UPLOAD_PACK) {
            match Id::from_str(path) {
                Ok(repository) => Ok(Service::GitUploadPack { repository }),
                Err(e) => Err(Error::Repository(e)),
            }
        } else if let Some(path) = path_of(s, &v, RECEIVE_PACK) {
            match Id::from_str(path) {
                Ok(repository) => Ok(Service::GitReceivePack { repository }),
                Err(e) => Err(Error::Repository(e)),
            }
        } else {
            Err(Error::Malformed)
        }
    }
}

} // verus!
