//! User-facing answers: either a success payload or a field-scoped error,
//! never a raw exception. A driver renders an [`Answer`] to the transport
//! format of its choice.

use vstd::prelude::*;

use crate::answer_types::{
    AccessErrorInfo, CountInfo, FieldErrorInfo, OkInfo, PhotoErrorInfo,
};
use crate::types::{CommonResult, Id};

verus! {

/// Status description of a running publication instance.
#[derive(Clone, PartialEq, Eq, Debug)]
pub struct PublicationInfo {
    pub id: Id,
    pub name: String,
    pub all_count: usize,
    pub published: usize,
}

/// What the wrapped (decoratable) variant reports about itself.
#[derive(Clone, PartialEq, Eq, Debug)]
pub enum ChangeInfo {
    Publication(PublicationInfo),
}

/// Status description of a running group-voting instance: the wrapped
/// variant's own description plus the tally counts.
#[derive(Clone, PartialEq, Eq, Debug)]
pub struct GroupVotingInfo {
    pub event_obj: ChangeInfo,
    pub all_count: usize,
    pub yes: usize,
    pub no: usize,
}

/// The concrete payload shapes an answer can carry.
#[derive(Clone, PartialEq, Eq, Debug)]
pub enum AnswerBody {
    Status(OkInfo),
    FieldError(FieldErrorInfo),
    PhotoError(PhotoErrorInfo),
    AccessError(AccessErrorInfo),
    Count(CountInfo),
    Publication(PublicationInfo),
    GroupVoting(GroupVotingInfo),
}

/// A structured reply to one user request: success or a user-correctable
/// rejection.
#[derive(Clone, PartialEq, Eq, Debug)]
pub enum Answer {
    Good(AnswerBody),
    Bad(AnswerBody),
}

pub type AnswerResult = CommonResult<Answer>;

impl Answer {
    pub fn good(body: AnswerBody) -> (r: Answer)
        ensures
            r == Answer::Good(body),
    {
        Answer::Good(body)
    }

    pub fn bad(body: AnswerBody) -> (r: Answer)
        ensures
            r == Answer::Bad(body),
    {
        Answer::Bad(body)
    }
}

/// Holds when `a` is a good answer whose body is the plain status `msg`.
pub open spec fn is_good_ok(a: Answer, msg: Seq<char>) -> bool {
    a matches Answer::Good(AnswerBody::Status(i)) && i.ok@ == msg
}

/// Holds when `a` is a bad answer naming field `field` with reason `reason`.
pub open spec fn is_bad_field(a: Answer, field: Seq<char>, reason: Seq<char>) -> bool {
    a matches Answer::Bad(AnswerBody::FieldError(i)) && i.field@ == field && i.reason@ == reason
}

/// Holds when `a` is the photo-not-found rejection.
pub open spec fn is_bad_photo_not_found(a: Answer) -> bool {
    a matches Answer::Bad(AnswerBody::PhotoError(i)) && i.photo@ == "not_found"@
}

/// Holds when `a` is the access-denied rejection.
pub open spec fn is_bad_access(a: Answer) -> bool {
    a matches Answer::Bad(AnswerBody::AccessError(i)) && i.access@ == "denied"@
}

} // verus!
