//! Late publication: each straggler of a finished publication gets one
//! more personal chance, over a year-long grace window.
//!
//! The straggler set is fixed when the instance is created and never
//! recomputed; progress and completion are measured against the parent
//! publication's record, so the instance is complete exactly when the
//! whole group has published.

use vstd::prelude::*;

use crate::answer::{
    is_bad_access, is_bad_field, is_bad_photo_not_found, is_good_ok, Answer, AnswerBody,
    AnswerResult, PublicationInfo,
};
use crate::answer_types::{AccessErrorInfo, FieldErrorInfo, OkInfo, PhotoErrorInfo};
use crate::codec::{
    encode_late, spec_decode_late, spec_encode_late, LatePublicationData, LatePublicationDataV,
};
use crate::events::{Context, FullEventInfo, ScheduledEventInfo, UserAction, LATE_PUBLICATION_ID};
use crate::mailer::{make_event_action_link, spec_event_action_link};
use crate::store::{
    has_photo_id, has_pub_row, has_user_id, members_of, photo_by_id, published_count,
    row_made_visible, spec_public_photo, unpublished_of, user_by_id, DbPublication, MailRow,
    PubRow,
};
use crate::tally::id_slice_contains;
use crate::types::{CommonError, CommonResult, EmptyResult, Id, User};

verus! {

/// The grace window handed to stragglers: one year of seconds.
pub const LATE_GRACE_SECONDS: u64 = 31536000;

/// Sender name shown on the straggler notifications.
pub const LATE_SENDER: &'static str = "Late publication";

/// The label of the follow-up instance spawned for the stragglers.
pub open spec fn late_event_name(name: Seq<char>) -> Seq<char> {
    "Catching up "@ + name
}

/// Subject of the personal notification a straggler receives.
pub open spec fn late_mail_subject(name: Seq<char>) -> Seq<char> {
    "Late publication '"@ + name + "'"@
}

/// Body of the personal notification a straggler receives.
pub open spec fn late_mail_body(scheduled_id: Id) -> Seq<char> {
    "You did not publish a photo in time. You can still do it at "@ + spec_event_action_link(
        scheduled_id,
    ) + "."@
}

/// Holds when `e` is the late-publication descriptor spawned by a parent
/// instance: this variant's id, the derived label, the year-long window
/// starting now, and a payload carrying exactly the straggler ids.
pub open spec fn late_event_entry(
    e: FullEventInfo,
    parent_id: Id,
    group_id: Id,
    name: Seq<char>,
    now: u64,
    late_ids: Seq<Id>,
) -> bool {
    &&& e.id == LATE_PUBLICATION_ID
    &&& e.name@ == late_event_name(name)
    &&& e.start_time == now
    &&& e.end_time == now + LATE_GRACE_SECONDS
    &&& e.data@ == spec_encode_late(
        LatePublicationDataV { group_id, parent_id, late_users: late_ids },
    )
}

/// Making rows visible changes no publication key, so the straggler set
/// computed after the sweep equals the one computed before it.
pub proof fn lemma_visibility_keeps_unpublished(
    users: Seq<User>,
    pubs: Seq<PubRow>,
    vsch: Id,
    vg: Id,
    qsch: Id,
)
    ensures
        unpublished_of(
            users,
            pubs.map_values(|row: PubRow| row_made_visible(row, vsch, vg)),
            qsch,
        ) == unpublished_of(users, pubs, qsch),
    decreases users.len(),
{
    let mapped = pubs.map_values(|row: PubRow| row_made_visible(row, vsch, vg));
    assert forall|uid: Id| #[trigger]
        has_pub_row(mapped, qsch, uid) == has_pub_row(pubs, qsch, uid) by {
        if has_pub_row(pubs, qsch, uid) {
            let i = choose|i: int|
                0 <= i < pubs.len() && (#[trigger] pubs[i]).scheduled_id == qsch
                    && pubs[i].user_id == uid;
            assert(mapped[i].scheduled_id == qsch && mapped[i].user_id == uid);
            assert(has_pub_row(mapped, qsch, uid));
        }
        if has_pub_row(mapped, qsch, uid) {
            let i = choose|i: int|
                0 <= i < mapped.len() && (#[trigger] mapped[i]).scheduled_id == qsch
                    && mapped[i].user_id == uid;
            assert(mapped[i] == row_made_visible(pubs[i], vsch, vg));
            assert(pubs[i].scheduled_id == qsch && pubs[i].user_id == uid);
            assert(has_pub_row(pubs, qsch, uid));
        }
    }
    if users.len() > 0 {
        lemma_visibility_keeps_unpublished(users.drop_last(), pubs, vsch, vg, qsch);
    }
}

/// The late-publication behaviour; one stateless value serves every
/// instance.
pub struct LatePublication;

impl LatePublication {
    pub fn new() -> (r: LatePublication)
        ensures
            r == (LatePublication {  }),
    {
        LatePublication {  }
    }

    /// Builds the descriptor of the grace-period instance a parent
    /// publication spawns for its stragglers.
    pub fn create_info(
        parent_id: Id,
        group_id: Id,
        name: &str,
        start_time: u64,
        duration: u64,
        late_users: &Vec<Id>,
    ) -> (r: FullEventInfo)
        requires
            start_time + duration <= u64::MAX,
        ensures
            r.id == LATE_PUBLICATION_ID,
            r.name@ == late_event_name(name@),
            r.start_time == start_time,
            r.end_time == start_time + duration,
            crate::events::event_window_wf(r),
            r.data@ == spec_encode_late(
                (LatePublicationDataV { group_id, parent_id, late_users: late_users@ }),
            ),
    {
        let data = LatePublicationData { group_id, parent_id, late_users: clone_ids(late_users) };
        FullEventInfo {
            id: LATE_PUBLICATION_ID,
            name: String::from_str("Catching up ").concat(name),
            start_time,
            end_time: start_time + duration,
            data: encode_late(&data),
        }
    }

    pub fn id(&self) -> (r: Id)
        ensures
            r == LATE_PUBLICATION_ID,
    {
        LATE_PUBLICATION_ID
    }

    /// Sends each straggler a personal notification with a link back to
    /// this instance.
    pub fn start(&self, ctx: &mut Context, body: &ScheduledEventInfo) -> (r: EmptyResult)
        requires
            old(ctx).store.wf(),
        ensures
            start_post(*old(ctx), *final(ctx), *body, r),
            final(ctx).store.wf(),
    {
        let info = match crate::codec::decode_late(&body.data) {
            Ok(info) => info,
            Err(e) => {
                return Err(e);
            },
        };
        let subject = String::from_str("Late publication '").concat(body.name.as_str()).concat(
            "'",
        );
        let link = make_event_action_link(body.scheduled_id);
        let text = String::from_str("You did not publish a photo in time. You can still do it at ")
            .concat(link.as_str()).concat(".");
        let ghost box_base = ctx.store.mailbox@.len();
        let mut i: usize = 0;
        while i < info.late_users.len()
            invariant
                old(ctx).store.wf(),
                ctx.store.wf(),
                i <= info.late_users@.len(),
                subject@ == late_mail_subject(body.name@),
                text@ == late_mail_body(body.scheduled_id),
                box_base == old(ctx).store.mailbox@.len(),
                ctx.now == old(ctx).now,
                ctx.outbox@ == old(ctx).outbox@,
                ctx.store.members@ == old(ctx).store.members@,
                ctx.store.users@ == old(ctx).store.users@,
                ctx.store.photos@ == old(ctx).store.photos@,
                ctx.store.publications@ == old(ctx).store.publications@,
                ctx.store.tallies@ == old(ctx).store.tallies@,
                ctx.store.created_events@ == old(ctx).store.created_events@,
                ctx.store.mailbox@.len() == box_base + i,
                ctx.store.mailbox@.subrange(0, box_base as int) == old(ctx).store.mailbox@,
                forall|k: int|
                    0 <= k < i ==> straggler_mail_entry(
                        info.late_users@[k],
                        body.name@,
                        body.scheduled_id,
                        #[trigger] ctx.store.mailbox@[box_base + k],
                    ),
            decreases info.late_users@.len() - i,
        {
            let ghost cur = ctx.store.mailbox@;
            let sent = ctx.store.send_mail_to(
                info.late_users[i],
                LATE_SENDER,
                subject.as_str(),
                text.as_str(),
            );
            match sent {
                Ok(unit) => {
                    let _ = unit;
                },
                Err(e) => {
                    return Err(e);
                },
            }
            proof {
                assert(ctx.store.mailbox@.subrange(0, box_base as int) =~= cur.subrange(
                    0,
                    box_base as int,
                ));
                assert forall|k: int|
                    0 <= k < i + 1 implies straggler_mail_entry(
                    info.late_users@[k],
                    body.name@,
                    body.scheduled_id,
                    #[trigger] ctx.store.mailbox@[box_base + k],
                ) by {
                    if k < i {
                        assert(ctx.store.mailbox@[box_base + k] == cur[box_base + k]);
                    } else {
                        assert(ctx.store.mailbox@[box_base + k] == ctx.store.mailbox@.last());
                    }
                }
            }
            i += 1;
        }
        Ok(())
    }

    /// The grace period simply lapses; nothing to do.
    pub fn finish(&self, ctx: &mut Context, _body: &ScheduledEventInfo) -> (r: EmptyResult)
        ensures
            r == EmptyResult::Ok(()),
            *final(ctx) == *old(ctx),
    {
        Ok(())
    }

    /// A straggler is told to choose a photo; anyone else has nothing to
    /// do here.
    pub fn user_action_get(&self, _ctx: &Context, user: &User, body: &ScheduledEventInfo) -> (r:
        AnswerResult)
        ensures
            user_action_get_post(*user, *body, r),
    {
        let info = match crate::codec::decode_late(&body.data) {
            Ok(info) => info,
            Err(e) => {
                return Err(e);
            },
        };
        if id_slice_contains(&info.late_users, user.id) {
            Ok(Answer::good(AnswerBody::Status(OkInfo::new("choose_from_gallery"))))
        } else {
            Ok(Answer::good(AnswerBody::Status(OkInfo::new("nothing_to_do"))))
        }
    }

    /// Records a straggler's photo under the parent instance, immediately
    /// visible; rejects anyone outside the straggler set, and validates
    /// photo existence and ownership exactly as publication does.
    pub fn user_action_post(
        &self,
        ctx: &mut Context,
        user: &User,
        action: &UserAction,
        body: &ScheduledEventInfo,
    ) -> (r: AnswerResult)
        requires
            old(ctx).store.wf(),
        ensures
            user_action_post_post(*old(ctx), *final(ctx), *user, *action, *body, r),
            final(ctx).store.wf(),
    {
        let photo_id = match action {
            UserAction::ChoosePhoto { photo_id } => *photo_id,
            UserAction::Ballot { .. } => {
                return Err(CommonError::RequestDecode);
            },
        };
        let info = match crate::codec::decode_late(&body.data) {
            Ok(info) => info,
            Err(e) => {
                return Err(e);
            },
        };
        if !id_slice_contains(&info.late_users, user.id) {
            return Ok(
                Answer::bad(AnswerBody::FieldError(FieldErrorInfo::new("user", "nothing_to_do"))),
            );
        }
        let found = ctx.store.get_photo_info(photo_id);
        match found {
            Some((owner_name, _photo)) => {
                if owner_name.eq(&user.name) {
                    let recorded = ctx.store.public_photo(
                        info.parent_id,
                        info.group_id,
                        user.id,
                        photo_id,
                        true,
                    );
                    match recorded {
                        Ok(unit) => {
                            let _ = unit;
                        },
                        Err(e) => {
                            return Err(e);
                        },
                    }
                    Ok(Answer::good(AnswerBody::Status(OkInfo::new("published"))))
                } else {
                    Ok(Answer::bad(AnswerBody::AccessError(AccessErrorInfo::new())))
                }
            },
            None => Ok(Answer::bad(AnswerBody::PhotoError(PhotoErrorInfo::not_found()))),
        }
    }

    /// Status snapshot: group size and how many have published, measured
    /// against the parent instance's record.
    pub fn info_get(&self, ctx: &Context, _user: &User, body: &ScheduledEventInfo) -> (r:
        AnswerResult)
        ensures
            info_get_post(ctx.store, *body, r),
    {
        let info = match crate::codec::decode_late(&body.data) {
            Ok(info) => info,
            Err(e) => {
                return Err(e);
            },
        };
        let all_count = ctx.store.get_members_count(info.group_id);
        let published = ctx.store.get_published_photo_count(info.parent_id, info.group_id);
        Ok(
            Answer::good(
                AnswerBody::Publication(
                    PublicationInfo {
                        id: LATE_PUBLICATION_ID,
                        name: body.name.clone(),
                        all_count,
                        published,
                    },
                ),
            ),
        )
    }

    /// Complete exactly when the whole group has published under the
    /// parent instance, whoever the stragglers were.
    pub fn is_complete(&self, ctx: &Context, body: &ScheduledEventInfo) -> (r: CommonResult<bool>)
        ensures
            is_complete_post(ctx.store, *body, r),
    {
        let info = match crate::codec::decode_late(&body.data) {
            Ok(info) => info,
            Err(e) => {
                return Err(e);
            },
        };
        let all_count = ctx.store.get_members_count(info.group_id);
        let published = ctx.store.get_published_photo_count(info.parent_id, info.group_id);
        Ok(all_count == published)
    }
}

/// Holds when `m` is the personal straggler notification for `user_id`.
pub open spec fn straggler_mail_entry(
    user_id: Id,
    name: Seq<char>,
    scheduled_id: Id,
    m: MailRow,
) -> bool {
    &&& m.user_id == user_id
    &&& m.sender@ == LATE_SENDER@
    &&& m.subject@ == late_mail_subject(name)
    &&& m.body@ == late_mail_body(scheduled_id)
}

/// What `start` leaves behind: on a payload of this variant, one internal
/// notification per straggler, in order, and nothing else changed; on any
/// other payload, a decode error and no change.
pub open spec fn start_post(
    pre: Context,
    post: Context,
    body: ScheduledEventInfo,
    r: EmptyResult,
) -> bool {
    match spec_decode_late(body.data@) {
        Option::None => r == EmptyResult::Err(
            CommonError::PayloadDecode { variant: LATE_PUBLICATION_ID },
        ) && post == pre,
        Option::Some(info) => {
            &&& r == EmptyResult::Ok(())
            &&& post.now == pre.now
            &&& post.outbox@ == pre.outbox@
            &&& post.store.members@ == pre.store.members@
            &&& post.store.users@ == pre.store.users@
            &&& post.store.photos@ == pre.store.photos@
            &&& post.store.publications@ == pre.store.publications@
            &&& post.store.tallies@ == pre.store.tallies@
            &&& post.store.created_events@ == pre.store.created_events@
            &&& post.store.mailbox@.len() == pre.store.mailbox@.len() + info.late_users.len()
            &&& post.store.mailbox@.subrange(0, pre.store.mailbox@.len() as int)
                == pre.store.mailbox@
            &&& forall|k: int|
                0 <= k < info.late_users.len() ==> straggler_mail_entry(
                    info.late_users[k],
                    body.name@,
                    body.scheduled_id,
                    #[trigger] post.store.mailbox@[pre.store.mailbox@.len() + k],
                )
        },
    }
}

/// What `user_action_get` answers: stragglers are told to choose a photo,
/// everyone else that nothing is expected of them.
pub open spec fn user_action_get_post(user: User, body: ScheduledEventInfo, r: AnswerResult) -> bool {
    match spec_decode_late(body.data@) {
        Option::None => r == AnswerResult::Err(
            CommonError::PayloadDecode { variant: LATE_PUBLICATION_ID },
        ),
        Option::Some(info) => {
            if info.late_users.contains(user.id) {
                r matches Result::Ok(a) && is_good_ok(a, "choose_from_gallery"@)
            } else {
                r matches Result::Ok(a) && is_good_ok(a, "nothing_to_do"@)
            }
        },
    }
}

/// What `user_action_post` answers and changes: a straggler's existing,
/// owned photo is recorded under the parent instance, immediately
/// visible; every rejection leaves the state unchanged.
pub open spec fn user_action_post_post(
    pre: Context,
    post: Context,
    user: User,
    action: UserAction,
    body: ScheduledEventInfo,
    r: AnswerResult,
) -> bool {
    match action {
        UserAction::Ballot { .. } => r == AnswerResult::Err(CommonError::RequestDecode) && post
            == pre,
        UserAction::ChoosePhoto { photo_id } => match spec_decode_late(body.data@) {
            Option::None => r == AnswerResult::Err(
                CommonError::PayloadDecode { variant: LATE_PUBLICATION_ID },
            ) && post == pre,
            Option::Some(info) => {
                let photo_known = has_photo_id(pre.store.photos@, photo_id) && has_user_id(
                    pre.store.users@,
                    photo_by_id(pre.store.photos@, photo_id).owner_id,
                );
                if !info.late_users.contains(user.id) {
                    &&& r matches Result::Ok(a) && is_bad_field(a, "user"@, "nothing_to_do"@)
                    &&& post == pre
                } else if !photo_known {
                    &&& r matches Result::Ok(a) && is_bad_photo_not_found(a)
                    &&& post == pre
                } else if user_by_id(
                    pre.store.users@,
                    photo_by_id(pre.store.photos@, photo_id).owner_id,
                ).name@ != user.name@ {
                    &&& r matches Result::Ok(a) && is_bad_access(a)
                    &&& post == pre
                } else {
                    &&& r matches Result::Ok(a) && is_good_ok(a, "published"@)
                    &&& post.store.publications@ == spec_public_photo(
                        pre.store.publications@,
                        info.parent_id,
                        info.group_id,
                        user.id,
                        photo_id,
                        true,
                    )
                    &&& post.now == pre.now
                    &&& post.outbox@ == pre.outbox@
                    &&& post.store.members@ == pre.store.members@
                    &&& post.store.users@ == pre.store.users@
                    &&& post.store.photos@ == pre.store.photos@
                    &&& post.store.tallies@ == pre.store.tallies@
                    &&& post.store.mailbox@ == pre.store.mailbox@
                    &&& post.store.created_events@ == pre.store.created_events@
                }
            },
        },
    }
}

/// What `info_get` answers: group size and published count against the
/// parent instance.
pub open spec fn info_get_post(
    store: crate::store::Store,
    body: ScheduledEventInfo,
    r: AnswerResult,
) -> bool {
    match spec_decode_late(body.data@) {
        Option::None => r == AnswerResult::Err(
            CommonError::PayloadDecode { variant: LATE_PUBLICATION_ID },
        ),
        Option::Some(info) => {
            &&& r matches Result::Ok(a)
            &&& a matches Answer::Good(AnswerBody::Publication(p))
            &&& p.id == LATE_PUBLICATION_ID
            &&& p.name@ == body.name@
            &&& p.all_count == members_of(store.members@, info.group_id).len()
            &&& p.published == published_count(store.publications@, info.parent_id, info.group_id)
        },
    }
}

/// What `is_complete` decides: true exactly when the published count under
/// the parent instance equals the group's member count.
pub open spec fn is_complete_post(
    store: crate::store::Store,
    body: ScheduledEventInfo,
    r: CommonResult<bool>,
) -> bool {
    match spec_decode_late(body.data@) {
        Option::None => r == CommonResult::<bool>::Err(
            CommonError::PayloadDecode { variant: LATE_PUBLICATION_ID },
        ),
        Option::Some(info) => r == CommonResult::<bool>::Ok(
            members_of(store.members@, info.group_id).len() == published_count(
                store.publications@,
                info.parent_id,
                info.group_id,
            ),
        ),
    }
}

/// Copies a list of ids.
pub fn clone_ids(v: &Vec<Id>) -> (r: Vec<Id>)
    ensures
        r@ == v@,
{
    let mut out: Vec<Id> = Vec::new();
    let mut i: usize = 0;
    while i < v.len()
        invariant
            i <= v@.len(),
            out@ == v@.subrange(0, i as int),
        decreases v@.len() - i,
    {
        out.push(v[i]);
        proof {
            assert(out@ =~= v@.subrange(0, i as int + 1));
        }
        i += 1;
    }
    proof {
        assert(out@ =~= v@);
    }
    out
}

} // verus!
