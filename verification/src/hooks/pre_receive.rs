use vstd::prelude::*;

use super::{overall, Cause, Outcome, RefUpdate};
use crate::repository::id::{Id, IdView};
use crate::repository::source::{governing, governing_kind, Authority, Kind};
use crate::text::same;

verus! {

/// The revision of a source repository to read a registry from.
#[derive(Debug, Clone, Copy, PartialEq, Eq, Structural)]
pub enum Revision {
    /// The tip of the default branch.
    Head,
    /// The new revision of the update at hand.
    Pushed,
}

/// What has to be read before an update can be judged.
#[derive(Debug)]
pub struct Reading {
    /// The source repository to read from.
    pub repository: Id,
    /// The kind of registry to read.
    pub kind: Kind,
    /// The revision to read it from.
    pub revision: Revision,
}

/// The reading that the updates of a push to `id` call for. A push to an
/// authority is judged by the registry that it brings; a push to a plain
/// repository by the registry that governs it as it stands.
pub open spec fn reading(id: IdView) -> (IdView, Kind, Revision) {
    if id.is_plain() {
        (id.to_source(), governing_kind(id), Revision::Head)
    } else {
        (id, governing_kind(id), Revision::Pushed)
    }
}

/// Whether what was read is the registry that the reading asked for.
pub open spec fn was_read<D>(id: IdView, found: Option<Authority<D>>) -> bool {
    found matches Some(authority) && authority.governs(id)
}

/// The decision on one update of a push to the repository `id`, from what
/// was read and from whether the update moves the default branch.
///
/// An authority has to bring a registry that decodes: if it does not, the
/// update is rejected on the default branch, and accepted with a warning on
/// any other. A plain repository has to be declared by the authority that
/// governs it: if that authority cannot be read, or does not declare it, the
/// update is rejected.
pub open spec fn decide<D>(id: IdView, on_head: bool, found: Option<Authority<D>>) -> Outcome {
    if id.is_plain() {
        if !was_read(id, found) {
            Outcome::Reject(Cause::Unreadable)
        } else if !found->Some_0.defines(id) {
            Outcome::Reject(Cause::Unregistered)
        } else {
            Outcome::Accept
        }
    } else {
        if was_read(id, found) {
            Outcome::Accept
        } else if on_head {
            Outcome::Reject(Cause::Undecodable)
        } else {
            Outcome::Warn(Cause::Undecodable)
        }
    }
}

/// The decisions on the updates of a push to `id`, in their order.
pub open spec fn decisions<D>(
    id: IdView,
    head: Seq<char>,
    updates: Seq<(RefUpdate, Option<Authority<D>>)>,
) -> Seq<Outcome> {
    Seq::new(
        updates.len(),
        |i: int| decide(id, updates[i].0@.refname == head, updates[i].1),
    )
}

/// What was read, by value.
pub open spec fn owned<D>(found: Option<&Authority<D>>) -> Option<Authority<D>> {
    match found {
        Some(authority) => Some(*authority),
        None => None,
    }
}

/// Pushing to an authority: a registry that decodes is accepted silently on
/// any branch; one that does not is rejected on the default branch and
/// accepted with a warning on any other.
pub proof fn lemma_authority_push<D>(id: IdView, on_head: bool, found: Option<Authority<D>>)
    requires
        !id.is_plain(),
    ensures
        was_read(id, found) ==> decide(id, on_head, found) == Outcome::Accept,
        !was_read(id, found) && on_head ==> decide(id, on_head, found) is Reject,
        !was_read(id, found) && !on_head ==> decide(id, on_head, found) is Warn,
{
}

/// Pushing to a plain repository is accepted exactly when its governing
/// authority was read and declares it; no such push ends with a warning.
pub proof fn lemma_plain_push<D>(id: IdView, on_head: bool, found: Option<Authority<D>>)
    requires
        id.is_plain(),
    ensures
        decide(id, on_head, found) == Outcome::Accept <==> was_read(id, found)
            && found->Some_0.defines(id),
        !(decide(id, on_head, found) is Warn),
{
}

/// What a [`PreReceive`] stands for.
pub struct PreReceiveView {
    /// The path that the repositories live under.
    pub storage: Seq<char>,
    /// The repository that is pushed to.
    pub id: IdView,
}

/// The first script to run when handling a push from a client is pre-receive.
/// It takes the list of references that are being pushed; if it rejects one
/// of them, none of them are accepted.
#[derive(Debug)]
pub struct PreReceive {
    storage: String,
    id: Id,
}

impl View for PreReceive {
    type V = PreReceiveView;

    closed spec fn view(&self) -> PreReceiveView {
        PreReceiveView { storage: self.storage@, id: self.id@ }
    }
}

impl PreReceive {
    /// The hook for a push to the repository `id`, which lives under
    /// `storage`.
    pub fn new(storage: String, id: Id) -> (r: Self)
        ensures
            r@ == (PreReceiveView { storage: storage@, id: id@ }),
    {
        PreReceive { storage, id }
    }

    /// The path that the repositories live under.
    pub fn storage(&self) -> (r: &str)
        ensures
            r@ == self@.storage,
    {
        self.storage.as_str()
    }

    /// The repository that is pushed to.
    pub fn id(&self) -> (r: &Id)
        ensures
            r@ == self@.id,
    {
        &self.id
    }

    /// What has to be read to judge the updates of this push.
    pub fn reading(&self) -> (r: Reading)
        ensures
            (r.repository@, r.kind, r.revision) == reading(self@.id),
    {
        let (source, kind) = governing(&self.id);
        if self.id.is_source() {
            Reading { repository: source, kind, revision: Revision::Pushed }
        } else {
            Reading { repository: source, kind, revision: Revision::Head }
        }
    }

    /// Judges one update of the push. `head` is the reference that the
    /// default branch of the repository stands for, and `found` is what came
    /// of the reading that [`PreReceive::reading`] asks for: the registry, or
    /// `None` where it could not be read or decoded.
    pub fn receive<D>(&self, update: &RefUpdate, head: &str, found: Option<&Authority<D>>) -> (r:
        Outcome)
        ensures
            r == decide(self@.id, update@.refname == head@, owned(found)),
    {
        let on_head = same(update.refname.as_str(), head);
        let read = match found {
            Some(authority) => authority.is_governing(&self.id),
            None => false,
        };
        if !self.id.is_source() {
            if !read {
                Outcome::Reject(Cause::Unreadable)
            } else {
                match found {
                    Some(authority) => {
                        if authority.repository(&self.id).is_some() {
                            Outcome::Accept
                        } else {
                            Outcome::Reject(Cause::Unregistered)
                        }
                    },
                    None => Outcome::Reject(Cause::Unreadable),
                }
            }
        } else if read {
            Outcome::Accept
        } else if on_head {
            Outcome::Reject(Cause::Undecodable)
        } else {
            Outcome::Warn(Cause::Undecodable)
        }
    }

    /// Judges a whole push: its updates in their order, each with what was
    /// read for it. The outcome is the worst of those of the updates; the
    /// updates behind a rejected one are not looked at.
    pub fn run<D>(&self, head: &str, updates: &Vec<(RefUpdate, Option<Authority<D>>)>) -> (r:
        Outcome)
        ensures
            r == overall(decisions(self@.id, head@, updates@)),
    {
        let ghost all = decisions(self@.id, head@, updates@);
        let n: usize = updates.len();
        let mut outcome = Outcome::Accept;
        let mut i: usize = 0;
        while i < n && !outcome.is_final()
            invariant
                n == updates.len(),
                i <= n,
                all == decisions(self@.id, head@, updates@),
                outcome == overall(all.take(i as int)),
            decreases n - i,
        {
            let found = updates[i].1.as_ref();
            let next = self.receive(&updates[i].0, head, found);
            proof {
                assert(all.take(i + 1).drop_last() =~= all.take(i as int));
            }
            outcome = outcome.and(next);
            i = i + 1;
        }
        proof {
            lemma_final(all, i as int);
        }
        outcome
    }
}

/// Once a push is rejected, the updates that follow change nothing.
proof fn lemma_final(outcomes: Seq<Outcome>, i: int)
    requires
        0 <= i <= outcomes.len(),
        i == outcomes.len() || overall(outcomes.take(i)) is Reject,
    ensures
        overall(outcomes) == overall(outcomes.take(i)),
    decreases outcomes.len() - i,
{
    if i < outcomes.len() {
        assert(outcomes.take(i + 1).drop_last() =~= outcomes.take(i));
        lemma_final(outcomes, i + 1);
    } else {
        assert(outcomes.take(i) =~= outcomes);
    }
}

} // verus!
