//! Group voting: a decorator that gates another variant's change behind a
//! quorum decision.
//!
//! The payload embeds the wrapped variant's id and payload; `finish` reads
//! the tally and, only when the quorum rule holds, resolves the wrapped
//! variant through the registry and applies its change under a
//! reconstructed record. A failed vote is a silent no-op by design.

use vstd::prelude::*;

use crate::answer::{
    is_bad_field, is_good_ok, Answer, AnswerBody, AnswerResult, GroupVotingInfo,
};
use crate::answer_types::{FieldErrorInfo, OkInfo};
use crate::codec::{
    decode_voting, spec_decode_voting, spec_encode_voting, GroupVotingData, GroupVotingDataV,
};
use crate::events::publication::change_info_post;
use crate::events::{
    clone_bytes, get_change_by_voting, Context, FullEventInfo, ScheduledEventInfo, UserAction,
    GROUP_VOTING_ID, PUBLICATION_ID,
};
use crate::store::{has_tally, tally_index, Store};
use crate::tally::{count_votes, Ratio};
use crate::types::{CommonError, CommonResult, EmptyResult, Id, User};

verus! {

/// Builds the descriptor of a new voting instance wrapping another
/// event's descriptor: same label and window, this variant's id, and a
/// payload embedding the wrapped variant's id and payload.
pub fn new(group_id: Id, success_ratio: Ratio, internal_event: &FullEventInfo) -> (r:
    FullEventInfo)
    requires
        success_ratio.wf(),
        crate::events::event_window_wf(*internal_event),
    ensures
        r.id == GROUP_VOTING_ID,
        r.name@ == internal_event.name@,
        r.start_time == internal_event.start_time,
        r.end_time == internal_event.end_time,
        crate::events::event_window_wf(r),
        r.data@ == spec_encode_voting(
            (GroupVotingDataV {
                internal_id: internal_event.id,
                group_id,
                success_ratio,
                internal_data: internal_event.data@,
            }),
        ),
{
    let data = GroupVotingData {
        internal_id: internal_event.id,
        group_id,
        success_ratio,
        internal_data: clone_bytes(&internal_event.data),
    };
    FullEventInfo {
        id: GROUP_VOTING_ID,
        name: internal_event.name.clone(),
        start_time: internal_event.start_time,
        end_time: internal_event.end_time,
        data: crate::codec::encode_voting(&data),
    }
}

/// The tally size of an instance; zero when rights were never granted.
pub open spec fn spec_all_count(store: Store, sch: Id) -> nat {
    if has_tally(store.tallies@, sch) {
        store.tallies@[tally_index(store.tallies@, sch)].votes.eligible@.len()
    } else {
        0
    }
}

/// The yes count of an instance; zero without a tally.
pub open spec fn spec_yes_count(store: Store, sch: Id) -> nat {
    if has_tally(store.tallies@, sch) {
        count_votes(store.tallies@[tally_index(store.tallies@, sch)].votes.ballots@, true)
    } else {
        0
    }
}

/// The no count of an instance; zero without a tally.
pub open spec fn spec_no_count(store: Store, sch: Id) -> nat {
    if has_tally(store.tallies@, sch) {
        count_votes(store.tallies@[tally_index(store.tallies@, sch)].votes.ballots@, false)
    } else {
        0
    }
}

/// The quorum rule over an instance's tally; never approved without a
/// tally.
pub open spec fn spec_approved(store: Store, sch: Id, ratio: Ratio) -> bool {
    has_tally(store.tallies@, sch) && store.tallies@[tally_index(
        store.tallies@,
        sch,
    )].votes.spec_is_approved(ratio)
}

/// Every eligible voter has cast a ballot; vacuously true without a
/// tally.
pub open spec fn spec_all_voted(store: Store, sch: Id) -> bool {
    spec_yes_count(store, sch) + spec_no_count(store, sch) == spec_all_count(store, sch)
}

/// Whether this user still needs to vote on this instance.
pub open spec fn spec_needs(store: Store, sch: Id, uid: Id) -> bool {
    has_tally(store.tallies@, sch) && store.tallies@[tally_index(
        store.tallies@,
        sch,
    )].votes.spec_needs_vote(uid)
}

/// The group-voting behaviour; one stateless value serves every instance.
pub struct GroupVoting;

impl GroupVoting {
    pub fn new() -> (r: GroupVoting)
        ensures
            r == (GroupVoting {  }),
    {
        GroupVoting {  }
    }

    pub fn id(&self) -> (r: Id)
        ensures
            r == GROUP_VOTING_ID,
    {
        GROUP_VOTING_ID
    }

    /// Grants voting eligibility to every current member of the group.
    pub fn start(&self, ctx: &mut Context, body: &ScheduledEventInfo) -> (r: EmptyResult)
        requires
            old(ctx).store.wf(),
        ensures
            start_post(*old(ctx), *final(ctx), *body, r),
            final(ctx).store.wf(),
    {
        let data = match decode_voting(&body.data) {
            Ok(data) => data,
            Err(e) => {
                return Err(e);
            },
        };
        ctx.store.add_rights_of_voting_for_group(body.scheduled_id, data.group_id)
    }

    /// Reads the tally; when the quorum rule holds, resolves the wrapped
    /// variant and applies its change under a reconstructed record. When
    /// it does not hold, nothing happens.
    pub fn finish(&self, ctx: &mut Context, body: &ScheduledEventInfo) -> (r: EmptyResult)
        requires
            old(ctx).store.wf(),
            old(ctx).now + crate::events::late_publication::LATE_GRACE_SECONDS <= u64::MAX,
        ensures
            finish_post(*old(ctx), *final(ctx), *body, r),
            final(ctx).store.wf(),
    {
        let data = match decode_voting(&body.data) {
            Ok(data) => data,
            Err(e) => {
                return Err(e);
            },
        };
        let approved = match ctx.store.get_votes(body.scheduled_id) {
            Some(votes) => votes.is_approved(&data.success_ratio),
            None => false,
        };
        if approved {
            let change = match get_change_by_voting(data.internal_id) {
                Ok(change) => change,
                Err(e) => {
                    return Err(e);
                },
            };
            let internal_body = make_internal_body(&data, body);
            return change.apply(ctx, data.group_id, &internal_body);
        }
        Ok(())
    }

    /// Tells the user whether a vote is still expected of them.
    pub fn user_action_get(&self, ctx: &Context, user: &User, _body: &ScheduledEventInfo) -> (r:
        AnswerResult)
        requires
            ctx.store.wf(),
        ensures
            user_action_get_post(ctx.store, *user, *_body, r),
    {
        let is_need = ctx.store.is_need_user_vote(_body.scheduled_id, user.id);
        if is_need {
            Ok(Answer::good(AnswerBody::Status(OkInfo::new("need_some_voting"))))
        } else {
            Ok(Answer::good(AnswerBody::Status(OkInfo::new("no_need_vote"))))
        }
    }

    /// Records the user's ballot; a user who no longer needs to vote is
    /// rejected as a field error and the tally never changes for them.
    pub fn user_action_post(
        &self,
        ctx: &mut Context,
        user: &User,
        action: &UserAction,
        body: &ScheduledEventInfo,
    ) -> (r: AnswerResult)
        requires
            old(ctx).store.wf(),
        ensures
            user_action_post_post(*old(ctx), *final(ctx), *user, *action, *body, r),
            final(ctx).store.wf(),
    {
        let vote = match action {
            UserAction::Ballot { vote } => vote,
            UserAction::ChoosePhoto { .. } => {
                return Err(CommonError::RequestDecode);
            },
        };
        let vote_value = vote.eq(&String::from_str("yes"));
        let is_need = ctx.store.is_need_user_vote(body.scheduled_id, user.id);
        if is_need {
            let set = ctx.store.set_vote(body.scheduled_id, user.id, vote_value);
            match set {
                Ok(unit) => {
                    let _ = unit;
                },
                Err(e) => {
                    return Err(e);
                },
            }
            Ok(Answer::good(AnswerBody::Status(OkInfo::new("accepted"))))
        } else {
            Ok(Answer::bad(AnswerBody::FieldError(FieldErrorInfo::new("user", "no_need_vote"))))
        }
    }

    /// Status snapshot: the wrapped variant's own description plus the
    /// tally counts.
    pub fn info_get(&self, ctx: &Context, _user: &User, body: &ScheduledEventInfo) -> (r:
        AnswerResult)
        requires
            ctx.store.wf(),
        ensures
            info_get_post(ctx.store, *body, r),
    {
        let data = match decode_voting(&body.data) {
            Ok(data) => data,
            Err(e) => {
                return Err(e);
            },
        };
        let change = match get_change_by_voting(data.internal_id) {
            Ok(change) => change,
            Err(e) => {
                return Err(e);
            },
        };
        let internal_body = make_internal_body(&data, body);
        let event_obj = match change.get_info(ctx, &internal_body) {
            Ok(event_obj) => event_obj,
            Err(e) => {
                return Err(e);
            },
        };
        let mut all_count: usize = 0;
        let mut yes: usize = 0;
        let mut no: usize = 0;
        match ctx.store.get_votes(body.scheduled_id) {
            Some(votes) => {
                all_count = votes.all_count();
                yes = votes.yes_count();
                no = votes.no_count();
            },
            None => {},
        }
        Ok(
            Answer::good(
                AnswerBody::GroupVoting(GroupVotingInfo { event_obj, all_count, yes, no }),
            ),
        )
    }

    /// Complete once everyone has voted, or once approval is already
    /// certain; a vote bound to fail still runs its full window.
    pub fn is_complete(&self, ctx: &Context, body: &ScheduledEventInfo) -> (r: CommonResult<bool>)
        requires
            ctx.store.wf(),
        ensures
            is_complete_post(ctx.store, *body, r),
    {
        let data = match decode_voting(&body.data) {
            Ok(data) => data,
            Err(e) => {
                return Err(e);
            },
        };
        match ctx.store.get_votes(body.scheduled_id) {
            Some(votes) => {
                proof {
                    lemma_count_votes_partition(
                        ctx.store.tallies@[tally_index(
                            ctx.store.tallies@,
                            body.scheduled_id,
                        )].votes.ballots@,
                    );
                }
                let yes = votes.yes_count();
                let no = votes.no_count();
                let all = votes.all_count();
                let all_voted = yes <= all && all - yes == no;
                Ok(all_voted || votes.is_approved(&data.success_ratio))
            },
            None => Ok(true),
        }
    }
}

/// The wrapped variant's scoped record: its id and payload under the
/// decorator's scheduled identity, label and state.
pub fn make_internal_body(data: &GroupVotingData, body: &ScheduledEventInfo) -> (r:
    ScheduledEventInfo)
    ensures
        r.id == data.internal_id,
        r.scheduled_id == body.scheduled_id,
        r.name@ == body.name@,
        r.state@ == body.state@,
        r.data@ == data.internal_data@,
{
    ScheduledEventInfo {
        id: data.internal_id,
        scheduled_id: body.scheduled_id,
        name: body.name.clone(),
        state: body.state.clone(),
        data: clone_bytes(&data.internal_data),
    }
}

/// Every ballot is a yes or a no, so the two counts partition the list.
pub proof fn lemma_count_votes_partition(s: Seq<crate::tally::Ballot>)
    ensures
        count_votes(s, true) + count_votes(s, false) == s.len(),
    decreases s.len(),
{
    if s.len() > 0 {
        lemma_count_votes_partition(s.drop_last());
    }
}

/// What `start` leaves behind: on a payload of this variant, a fresh
/// tally for this instance whose eligible voters are exactly the group's
/// current members, other tallies untouched, and nothing else changed; on
/// any other payload, a decode error and no change.
pub open spec fn start_post(
    pre: Context,
    post: Context,
    body: ScheduledEventInfo,
    r: EmptyResult,
) -> bool {
    match spec_decode_voting(body.data@) {
        Option::None => r == EmptyResult::Err(
            CommonError::PayloadDecode { variant: GROUP_VOTING_ID },
        ) && post == pre,
        Option::Some(data) => {
            &&& r == EmptyResult::Ok(())
            &&& post.now == pre.now
            &&& post.outbox@ == pre.outbox@
            &&& post.store.members@ == pre.store.members@
            &&& post.store.users@ == pre.store.users@
            &&& post.store.photos@ == pre.store.photos@
            &&& post.store.publications@ == pre.store.publications@
            &&& post.store.mailbox@ == pre.store.mailbox@
            &&& post.store.created_events@ == pre.store.created_events@
            &&& has_tally(post.store.tallies@, body.scheduled_id)
            &&& ({
                let t = post.store.tallies@[tally_index(post.store.tallies@, body.scheduled_id)];
                &&& t.scheduled_id == body.scheduled_id
                &&& t.votes.eligible@ == crate::store::ids_of(
                    crate::store::members_of(pre.store.members@, data.group_id),
                )
                &&& t.votes.ballots@ == Seq::<crate::tally::Ballot>::empty()
            })
            &&& forall|sch: Id|
                sch != body.scheduled_id ==> #[trigger] has_tally(post.store.tallies@, sch)
                    == has_tally(pre.store.tallies@, sch)
            &&& forall|sch: Id|
                sch != body.scheduled_id && has_tally(pre.store.tallies@, sch)
                    ==> post.store.tallies@[#[trigger] tally_index(post.store.tallies@, sch)]
                    == pre.store.tallies@[tally_index(pre.store.tallies@, sch)]
        },
    }
}

/// What `finish` leaves behind: nothing, unless the payload decodes and
/// the quorum rule holds, in which case the wrapped variant resolved from
/// the registry has applied its change under the reconstructed record (or
/// an unknown wrapped id surfaced as an error, changing nothing).
pub open spec fn finish_post(
    pre: Context,
    post: Context,
    body: ScheduledEventInfo,
    r: EmptyResult,
) -> bool {
    match spec_decode_voting(body.data@) {
        Option::None => r == EmptyResult::Err(
            CommonError::PayloadDecode { variant: GROUP_VOTING_ID },
        ) && post == pre,
        Option::Some(data) => {
            if !spec_approved(pre.store, body.scheduled_id, data.success_ratio) {
                r == EmptyResult::Ok(()) && post == pre
            } else if data.internal_id != PUBLICATION_ID {
                r == EmptyResult::Err(CommonError::UnknownVariant { id: data.internal_id }) && post
                    == pre
            } else {
                crate::events::publication::finish_post(
                    pre,
                    post,
                    body.scheduled_id,
                    body.name@,
                    data.internal_data,
                    r,
                )
            }
        },
    }
}

/// What `user_action_get` answers: whether a vote is still expected of
/// the requesting user.
pub open spec fn user_action_get_post(
    store: Store,
    user: User,
    body: ScheduledEventInfo,
    r: AnswerResult,
) -> bool {
    if spec_needs(store, body.scheduled_id, user.id) {
        r matches Result::Ok(a) && is_good_ok(a, "need_some_voting"@)
    } else {
        r matches Result::Ok(a) && is_good_ok(a, "no_need_vote"@)
    }
}

/// What `user_action_post` answers and changes: a user who still needs to
/// vote has their ballot recorded (yes exactly for the text `yes`); a
/// user who does not is rejected as a field error and no ballot of
/// theirs ever changes.
pub open spec fn user_action_post_post(
    pre: Context,
    post: Context,
    user: User,
    action: UserAction,
    body: ScheduledEventInfo,
    r: AnswerResult,
) -> bool {
    match action {
        UserAction::ChoosePhoto { .. } => r == AnswerResult::Err(CommonError::RequestDecode)
            && post == pre,
        UserAction::Ballot { vote } => {
            if !spec_needs(pre.store, body.scheduled_id, user.id) {
                &&& r matches Result::Ok(a) && is_bad_field(a, "user"@, "no_need_vote"@)
                &&& post == pre
            } else {
                let i = tally_index(pre.store.tallies@, body.scheduled_id);
                let t = pre.store.tallies@[i];
                &&& r matches Result::Ok(a) && is_good_ok(a, "accepted"@)
                &&& post.store.tallies@.len() == pre.store.tallies@.len()
                &&& forall|k: int|
                    0 <= k < pre.store.tallies@.len() && k != i ==> post.store.tallies@[k]
                        == pre.store.tallies@[k]
                &&& post.store.tallies@[i].scheduled_id == body.scheduled_id
                &&& post.store.tallies@[i].votes.eligible@ == t.votes.eligible@
                &&& post.store.tallies@[i].votes.ballots@ == crate::tally::spec_record(
                    t.votes.eligible@,
                    t.votes.ballots@,
                    user.id,
                    vote@ == "yes"@,
                )
                &&& post.now == pre.now
                &&& post.outbox@ == pre.outbox@
                &&& post.store.members@ == pre.store.members@
                &&& post.store.users@ == pre.store.users@
                &&& post.store.photos@ == pre.store.photos@
                &&& post.store.publications@ == pre.store.publications@
                &&& post.store.mailbox@ == pre.store.mailbox@
                &&& post.store.created_events@ == pre.store.created_events@
            }
        },
    }
}

/// What `info_get` answers: the wrapped variant's description and the
/// tally counts, or the error that resolving or reading the wrapped
/// variant produced.
pub open spec fn info_get_post(store: Store, body: ScheduledEventInfo, r: AnswerResult) -> bool {
    match spec_decode_voting(body.data@) {
        Option::None => r == AnswerResult::Err(
            CommonError::PayloadDecode { variant: GROUP_VOTING_ID },
        ),
        Option::Some(data) => {
            if data.internal_id != PUBLICATION_ID {
                r == AnswerResult::Err(CommonError::UnknownVariant { id: data.internal_id })
            } else if crate::codec::spec_decode_publication(data.internal_data) is None {
                r == AnswerResult::Err(CommonError::PayloadDecode { variant: PUBLICATION_ID })
            } else {
                &&& r matches Result::Ok(a)
                &&& a matches Answer::Good(AnswerBody::GroupVoting(g))
                &&& change_info_post(
                    store,
                    body.scheduled_id,
                    body.name@,
                    data.internal_data,
                    CommonResult::<crate::answer::ChangeInfo>::Ok(g.event_obj),
                )
                &&& g.all_count == spec_all_count(store, body.scheduled_id)
                &&& g.yes == spec_yes_count(store, body.scheduled_id)
                &&& g.no == spec_no_count(store, body.scheduled_id)
            }
        },
    }
}

/// What `is_complete` decides: everyone has voted, or approval already
/// holds.
pub open spec fn is_complete_post(store: Store, body: ScheduledEventInfo, r: CommonResult<
    bool,
>) -> bool {
    match spec_decode_voting(body.data@) {
        Option::None => r == CommonResult::<bool>::Err(
            CommonError::PayloadDecode { variant: GROUP_VOTING_ID },
        ),
        Option::Some(data) => r == CommonResult::<bool>::Ok(
            spec_all_voted(store, body.scheduled_id) || spec_approved(
                store,
                body.scheduled_id,
                data.success_ratio,
            ),
        ),
    }
}

} // verus!
