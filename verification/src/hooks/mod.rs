//! What the server decides when git calls one of its hooks.

use vstd::prelude::*;
use vstd::string::StrSliceExecFns;

use crate::text::{chars_of, find, lemma_split_len, split};

pub mod pre_receive;

pub use pre_receive::PreReceive;

verus! {

/// The character between the fields of a reference update.
pub const FIELD_SEPARATOR: char = ' ';

/// What a [`RefUpdate`] stands for.
pub struct RefUpdateView {
    pub oldrev: Seq<char>,
    pub newrev: Seq<char>,
    pub refname: Seq<char>,
}

/// Reads one line of a push: the old revision, the new revision and the name
/// of the reference, three fields that are not empty, with one separator
/// between two of them.
pub open spec fn parse(line: Seq<char>) -> Option<RefUpdateView> {
    let fields = split(line, FIELD_SEPARATOR);
    if fields.len() == 3 && fields[0].len() > 0 && fields[1].len() > 0 && fields[2].len() > 0 {
        Some(RefUpdateView { oldrev: fields[0], newrev: fields[1], refname: fields[2] })
    } else {
        None
    }
}

/// One reference that a push asks to move.
#[derive(Debug)]
pub struct RefUpdate {
    /// The revision that the reference points at before the push.
    pub oldrev: String,
    /// The revision that the push wants it to point at.
    pub newrev: String,
    /// The full name of the reference.
    pub refname: String,
}

impl View for RefUpdate {
    type V = RefUpdateView;

    open spec fn view(&self) -> RefUpdateView {
        RefUpdateView { oldrev: self.oldrev@, newrev: self.newrev@, refname: self.refname@ }
    }
}

impl RefUpdate {
    /// Parses one line of a push, without its line ending. A line that is
    /// not made of three fields gives `None`.
    pub fn from_str(line: &str) -> (r: Option<RefUpdate>)
        ensures
            match r {
                Some(update) => parse(line@) == Some(update@),
                None => parse(line@) is None,
            },
    {
        let v = chars_of(line);
        let n: usize = v.len();
        let ghost fields = split(line@, FIELD_SEPARATOR);
        let first: usize = find(&v, 0, FIELD_SEPARATOR);
        assert(v@.subrange(0, n as int) =~= line@);
        if first == n {
            return None;
        }
        let ghost rest = line@.subrange(first + 1, n as int);
        let second: usize = find(&v, first + 1, FIELD_SEPARATOR);
        if second == n {
            assert(split(rest, FIELD_SEPARATOR) =~= seq![rest]);
            return None;
        }
        let ghost last = rest.subrange(second - first, rest.len() as int);
        assert(split(rest, FIELD_SEPARATOR) =~= seq![rest.subrange(0, second - first - 1)] + split(
            last,
            FIELD_SEPARATOR,
        ));
        let third: usize = find(&v, second + 1, FIELD_SEPARATOR);
        assert(v@.subrange(second + 1, n as int) =~= last);
        if third < n {
            proof {
                lemma_split_len(last.subrange(third - second, last.len() as int), FIELD_SEPARATOR);
            }
            return None;
        }
        assert(fields =~= seq![
            line@.subrange(0, first as int),
            rest.subrange(0, second - first - 1),
            last,
        ]);
        assert(rest.subrange(0, second - first - 1) =~= line@.subrange(first + 1, second as int));
        if first == 0 || second == first + 1 || n == second + 1 {
            return None;
        }
        Some(
            RefUpdate {
                oldrev: line.substring_char(0, first).to_owned(),
                newrev: line.substring_char(first + 1, second).to_owned(),
                refname: line.substring_char(second + 1, n).to_owned(),
            },
        )
    }
}

/// Why an update is not accepted silently.
#[derive(Debug, Clone, Copy, PartialEq, Eq, Structural)]
pub enum Cause {
    /// The pushed revision of an authority does not hold a registry that
    /// decodes as the registry of that authority.
    Undecodable,
    /// The authority that governs the repository could not be read.
    Unreadable,
    /// The authority that governs the repository does not declare it.
    Unregistered,
}

/// What becomes of an update, or of a whole push.
#[derive(Debug, Clone, Copy, PartialEq, Eq, Structural)]
pub enum Outcome {
    /// Accepted, with nothing to say.
    Accept,
    /// Accepted, with a warning for the client.
    Warn(Cause),
    /// Rejected: no reference of the push moves.
    Reject(Cause),
}

impl Outcome {
    /// How bad the outcome is.
    pub open spec fn severity(self) -> nat {
        match self {
            Outcome::Accept => 0,
            Outcome::Warn(_) => 1,
            Outcome::Reject(_) => 2,
        }
    }

    /// The worse of two outcomes, the first of them where they are as bad as
    /// each other.
    pub open spec fn worse(self, next: Outcome) -> Outcome {
        if next.severity() > self.severity() {
            next
        } else {
            self
        }
    }

    /// Whether the outcome ends the push: nothing that follows a rejection
    /// changes it.
    pub fn is_final(&self) -> (r: bool)
        ensures
            r == (*self is Reject),
            r ==> forall|next: Outcome| self.worse(next) == *self,
    {
        match self {
            Outcome::Reject(_) => true,
            _ => false,
        }
    }

    /// The outcome of a push that stood at `self` and then met `next`.
    pub fn and(self, next: Outcome) -> (r: Outcome)
        ensures
            r == self.worse(next),
    {
        match (self, next) {
            (Outcome::Reject(_), _) => self,
            (_, Outcome::Reject(_)) => next,
            (Outcome::Warn(_), _) => self,
            (_, Outcome::Warn(_)) => next,
            _ => self,
        }
    }
}

/// The outcome of a push from those of its updates, in their order: the worst
/// of them, and the first of the worst.
pub open spec fn overall(outcomes: Seq<Outcome>) -> Outcome
    decreases outcomes.len(),
{
    if outcomes.len() == 0 {
        Outcome::Accept
    } else {
        overall(outcomes.drop_last()).worse(outcomes.last())
    }
}

/// A push is rejected exactly when one of its updates is, accepted silently
/// exactly when all of them are, and accepted with a warning otherwise. No
/// update is worse than the push, and the outcome of a push is that of one of
/// its updates: of the only one, where it has one.
pub proof fn lemma_overall(outcomes: Seq<Outcome>)
    ensures
        overall(outcomes) is Reject <==> exists|i: int|
            0 <= i < outcomes.len() && outcomes[i] is Reject,
        overall(outcomes) is Accept <==> forall|i: int|
            0 <= i < outcomes.len() ==> outcomes[i] is Accept,
        forall|i: int|
            0 <= i < outcomes.len() ==> outcomes[i].severity() <= overall(outcomes).severity(),
        outcomes.len() > 0 ==> exists|i: int|
            0 <= i < outcomes.len() && outcomes[i] == overall(outcomes),
        outcomes.len() == 1 ==> overall(outcomes) == outcomes[0],
    decreases outcomes.len(),
{
    if outcomes.len() > 0 {
        let init = outcomes.drop_last();
        let n = init.len() as int;
        lemma_overall(init);
        assert forall|i: int| 0 <= i < n implies init[i] == outcomes[i] by {}
    }
}

} // verus!
