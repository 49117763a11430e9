//! Publication: everyone in a group publishes a photo within the window.
//!
//! `start` notifies every member; during the window each member submits a
//! photo of their own, recorded invisibly; `finish` flips the group's
//! submissions visible and, when stragglers remain, schedules a late
//! publication covering exactly those users for a year-long grace window.

use vstd::prelude::*;

use crate::answer::{
    is_bad_access, is_bad_photo_not_found, is_good_ok, Answer, AnswerBody, AnswerResult,
    PublicationInfo,
};
use crate::answer_types::{AccessErrorInfo, OkInfo, PhotoErrorInfo};
use crate::codec::{decode_publication, spec_decode_publication};
use crate::events::late_publication::{late_event_entry, LatePublication, LATE_GRACE_SECONDS};
use crate::events::{Context, ScheduledEventInfo, UserAction, PUBLICATION_ID};
use crate::mailer::{
    mail_entry, mailbox_entry, publication_mail_body, publication_mail_subject,
    write_time_for_publication_mail, Mailer, PHOTOMETER,
};
use crate::store::{
    has_photo_id, has_user_id, members_of, photo_by_id, published_count, row_made_visible,
    spec_public_photo, unpublished_of, user_by_id, DbPublication, PubRow,
};
use crate::types::{CommonError, CommonResult, EmptyResult, Id, User};

verus! {

/// The publication behaviour; one stateless value serves every instance.
pub struct Publication;

impl Publication {
    pub fn new() -> (r: Publication)
        ensures
            r == (Publication {  }),
    {
        Publication {  }
    }

    pub fn id(&self) -> (r: Id)
        ensures
            r == PUBLICATION_ID,
    {
        PUBLICATION_ID
    }

    /// Notifies every group member that the publication window is open,
    /// with a deep link back to this instance.
    pub fn start(&self, ctx: &mut Context, body: &ScheduledEventInfo) -> (r: EmptyResult)
        requires
            old(ctx).store.wf(),
        ensures
            start_post(*old(ctx), *final(ctx), *body, r),
            final(ctx).store.wf(),
    {
        let info = match decode_publication(&body.data) {
            Ok(info) => info,
            Err(e) => {
                return Err(e);
            },
        };
        let members = ctx.store.get_members(info.group_id);
        let ghost out_base = ctx.outbox@.len();
        let ghost box_base = ctx.store.mailbox@.len();
        let ghost pre = *ctx;
        let mut i: usize = 0;
        while i < members.len()
            invariant
                pre == *old(ctx),
                old(ctx).store.wf(),
                ctx.store.wf(),
                i <= members@.len(),
                members@ == members_of(old(ctx).store.members@, info.group_id),
                out_base == old(ctx).outbox@.len(),
                box_base == old(ctx).store.mailbox@.len(),
                ctx.now == old(ctx).now,
                ctx.store.members@ == old(ctx).store.members@,
                ctx.store.users@ == old(ctx).store.users@,
                ctx.store.photos@ == old(ctx).store.photos@,
                ctx.store.publications@ == old(ctx).store.publications@,
                ctx.store.tallies@ == old(ctx).store.tallies@,
                ctx.store.created_events@ == old(ctx).store.created_events@,
                ctx.outbox@.len() == out_base + i,
                ctx.outbox@.subrange(0, out_base as int) == old(ctx).outbox@,
                forall|k: int|
                    0 <= k < i ==> mail_entry(
                        members@[k],
                        publication_mail_subject(body.name@),
                        publication_mail_body(members@[k].name@, body.scheduled_id),
                        #[trigger] ctx.outbox@[out_base + k],
                    ),
                ctx.store.mailbox@.len() == box_base + i,
                ctx.store.mailbox@.subrange(0, box_base as int) == old(ctx).store.mailbox@,
                forall|k: int|
                    0 <= k < i ==> mailbox_entry(
                        members@[k],
                        PHOTOMETER@,
                        publication_mail_subject(body.name@),
                        publication_mail_body(members@[k].name@, body.scheduled_id),
                        #[trigger] ctx.store.mailbox@[box_base + k],
                    ),
            decreases members@.len() - i,
        {
            let ghost cur = *ctx;
            let member = &members[i];
            let (subject, text) = write_time_for_publication_mail(
                body.name.as_str(),
                member.name.as_str(),
                body.scheduled_id,
            );
            let sent = ctx.send_mail(member, subject.as_str(), text.as_str());
            match sent {
                Ok(unit) => {
                    let _ = unit;
                },
                Err(e) => {
                    return Err(e);
                },
            }
            proof {
                assert(ctx.outbox@.subrange(0, out_base as int) =~= cur.outbox@.subrange(
                    0,
                    out_base as int,
                ));
                assert(ctx.store.mailbox@.subrange(0, box_base as int)
                    =~= cur.store.mailbox@.subrange(0, box_base as int));
                assert forall|k: int|
                    0 <= k < i + 1 implies mail_entry(
                    members@[k],
                    publication_mail_subject(body.name@),
                    publication_mail_body(members@[k].name@, body.scheduled_id),
                    #[trigger] ctx.outbox@[out_base + k],
                ) by {
                    if k < i {
                        assert(ctx.outbox@[out_base + k] == cur.outbox@.subrange(
                            0,
                            cur.outbox@.len() as int,
                        )[out_base + k]);
                        assert(ctx.outbox@[out_base + k] == cur.outbox@[out_base + k]);
                    } else {
                        assert(ctx.outbox@[out_base + k] == ctx.outbox@.last());
                    }
                }
                assert forall|k: int|
                    0 <= k < i + 1 implies mailbox_entry(
                    members@[k],
                    PHOTOMETER@,
                    publication_mail_subject(body.name@),
                    publication_mail_body(members@[k].name@, body.scheduled_id),
                    #[trigger] ctx.store.mailbox@[box_base + k],
                ) by {
                    if k < i {
                        assert(ctx.store.mailbox@[box_base + k] == cur.store.mailbox@[box_base
                            + k]);
                    } else {
                        assert(ctx.store.mailbox@[box_base + k] == ctx.store.mailbox@.last());
                    }
                }
            }
            i += 1;
        }
        Ok(())
    }

    /// Ends the window: the group's submissions become visible, and if any
    /// member has not published, one late-publication instance is
    /// scheduled for exactly those members.
    pub fn finish(&self, ctx: &mut Context, body: &ScheduledEventInfo) -> (r: EmptyResult)
        requires
            old(ctx).store.wf(),
            old(ctx).now + LATE_GRACE_SECONDS <= u64::MAX,
        ensures
            finish_post(*old(ctx), *final(ctx), body.scheduled_id, body.name@, body.data@, r),
            final(ctx).store.wf(),
    {
        let info = match decode_publication(&body.data) {
            Ok(info) => info,
            Err(e) => {
                return Err(e);
            },
        };
        let visible = ctx.store.make_publication_visible(body.scheduled_id, info.group_id);
        match visible {
            Ok(unit) => {
                let _ = unit;
            },
            Err(e) => {
                return Err(e);
            },
        }
        let unpublished = ctx.store.get_unpublished_users(body.scheduled_id, info.group_id);
        proof {
            crate::events::late_publication::lemma_visibility_keeps_unpublished(
                members_of(old(ctx).store.members@, info.group_id),
                old(ctx).store.publications@,
                body.scheduled_id,
                info.group_id,
                body.scheduled_id,
            );
        }
        if unpublished.len() > 0 {
            let mut late_ids: Vec<Id> = Vec::new();
            let mut i: usize = 0;
            while i < unpublished.len()
                invariant
                    i <= unpublished@.len(),
                    late_ids@ =~= crate::store::ids_of(unpublished@.subrange(0, i as int)),
                decreases unpublished@.len() - i,
            {
                late_ids.push(unpublished[i].id);
                proof {
                    assert(late_ids@ =~= crate::store::ids_of(
                        unpublished@.subrange(0, i as int + 1),
                    ));
                }
                i += 1;
            }
            proof {
                assert(unpublished@.subrange(0, unpublished@.len() as int) =~= unpublished@);
            }
            let event_info = LatePublication::create_info(
                body.scheduled_id,
                info.group_id,
                body.name.as_str(),
                ctx.now,
                LATE_GRACE_SECONDS,
                &late_ids,
            );
            let mut batch: Vec<crate::events::FullEventInfo> = Vec::new();
            batch.push(event_info);
            let ghost mid = ctx.store.created_events@;
            let added = ctx.store.add_events(batch);
            match added {
                Ok(unit) => {
                    let _ = unit;
                },
                Err(e) => {
                    return Err(e);
                },
            }
            proof {
                assert(final(ctx).store.created_events@.subrange(0, mid.len() as int) =~= mid);
                assert(final(ctx).store.created_events@.last()
                    == final(ctx).store.created_events@[mid.len() as int]);
            }
        }
        Ok(())
    }

    /// What a user should do during the window: choose a photo from their
    /// gallery.
    pub fn user_action_get(&self, _ctx: &Context, _user: &User, _body: &ScheduledEventInfo) -> (r:
        AnswerResult)
        ensures
            user_action_get_post(r),
    {
        Ok(Answer::good(AnswerBody::Status(OkInfo::new("choose_from_gallery"))))
    }

    /// Records the user's chosen photo for this instance, invisibly until
    /// `finish`; the photo must exist and belong to the requesting user.
    pub fn user_action_post(
        &self,
        ctx: &mut Context,
        user: &User,
        action: &UserAction,
        body: &ScheduledEventInfo,
    ) -> (r: AnswerResult)
        requires
            old(ctx).store.wf(),
        ensures
            user_action_post_post(*old(ctx), *final(ctx), *user, *action, *body, r),
            final(ctx).store.wf(),
    {
        let photo_id = match action {
            UserAction::ChoosePhoto { photo_id } => *photo_id,
            UserAction::Ballot { .. } => {
                return Err(CommonError::RequestDecode);
            },
        };
        let info = match decode_publication(&body.data) {
            Ok(info) => info,
            Err(e) => {
                return Err(e);
            },
        };
        let found = ctx.store.get_photo_info(photo_id);
        match found {
            Some((owner_name, _photo)) => {
                if owner_name.eq(&user.name) {
                    let recorded = ctx.store.public_photo(
                        body.scheduled_id,
                        info.group_id,
                        user.id,
                        photo_id,
                        false,
                    );
                    match recorded {
                        Ok(unit) => {
                            let _ = unit;
                        },
                        Err(e) => {
                            return Err(e);
                        },
                    }
                    Ok(Answer::good(AnswerBody::Status(OkInfo::new("published"))))
                } else {
                    Ok(Answer::bad(AnswerBody::AccessError(AccessErrorInfo::new())))
                }
            },
            None => Ok(Answer::bad(AnswerBody::PhotoError(PhotoErrorInfo::not_found()))),
        }
    }

    /// Status snapshot: group size and how many have published so far.
    pub fn info_get(&self, ctx: &Context, _user: &User, body: &ScheduledEventInfo) -> (r:
        AnswerResult)
        ensures
            info_get_post(ctx.store, *body, r),
    {
        let info = match decode_publication(&body.data) {
            Ok(info) => info,
            Err(e) => {
                return Err(e);
            },
        };
        let all_count = ctx.store.get_members_count(info.group_id);
        let published = ctx.store.get_published_photo_count(body.scheduled_id, info.group_id);
        Ok(
            Answer::good(
                AnswerBody::Publication(
                    PublicationInfo {
                        id: PUBLICATION_ID,
                        name: body.name.clone(),
                        all_count,
                        published,
                    },
                ),
            ),
        )
    }

    /// A publication window is never cut short.
    pub fn is_complete(&self, _ctx: &Context, _body: &ScheduledEventInfo) -> (r: CommonResult<
        bool,
    >)
        ensures
            r == CommonResult::<bool>::Ok(false),
    {
        Ok(false)
    }

    /// The change-by-voting description of a publication: the same counts
    /// its status snapshot reports.
    pub fn get_info(&self, ctx: &Context, body: &ScheduledEventInfo) -> (r: CommonResult<
        crate::answer::ChangeInfo,
    >)
        ensures
            change_info_post(ctx.store, body.scheduled_id, body.name@, body.data@, r),
    {
        let info = match decode_publication(&body.data) {
            Ok(info) => info,
            Err(e) => {
                return Err(e);
            },
        };
        let all_count = ctx.store.get_members_count(info.group_id);
        let published = ctx.store.get_published_photo_count(body.scheduled_id, info.group_id);
        Ok(
            crate::answer::ChangeInfo::Publication(
                PublicationInfo {
                    id: PUBLICATION_ID,
                    name: body.name.clone(),
                    all_count,
                    published,
                },
            ),
        )
    }

    /// The change a gating vote applies on approval: finalizing the
    /// publication, exactly as `finish` does.
    pub fn apply(&self, ctx: &mut Context, _group_id: Id, body: &ScheduledEventInfo) -> (r:
        EmptyResult)
        requires
            old(ctx).store.wf(),
            old(ctx).now + LATE_GRACE_SECONDS <= u64::MAX,
        ensures
            finish_post(*old(ctx), *final(ctx), body.scheduled_id, body.name@, body.data@, r),
            final(ctx).store.wf(),
    {
        self.finish(ctx, body)
    }
}

/// What the change-by-voting description holds: the member count and
/// published count of the wrapped publication.
pub open spec fn change_info_post(
    store: crate::store::Store,
    scheduled_id: Id,
    name: Seq<char>,
    data: Seq<u8>,
    r: CommonResult<crate::answer::ChangeInfo>,
) -> bool {
    match spec_decode_publication(data) {
        Option::None => r == CommonResult::<crate::answer::ChangeInfo>::Err(
            CommonError::PayloadDecode { variant: PUBLICATION_ID },
        ),
        Option::Some(info) => {
            &&& r matches Result::Ok(crate::answer::ChangeInfo::Publication(p))
            &&& p.id == PUBLICATION_ID
            &&& p.name@ == name
            &&& p.all_count == members_of(store.members@, info.group_id).len()
            &&& p.published == published_count(store.publications@, scheduled_id, info.group_id)
        },
    }
}

/// What `start` leaves behind: on a payload of this variant, one message
/// per group member, in member order, in the outbox and the mailbox, and
/// nothing else changed; on any other payload, a decode error and no
/// change.
pub open spec fn start_post(
    pre: Context,
    post: Context,
    body: ScheduledEventInfo,
    r: EmptyResult,
) -> bool {
    match spec_decode_publication(body.data@) {
        Option::None => r == EmptyResult::Err(
            CommonError::PayloadDecode { variant: PUBLICATION_ID },
        ) && post == pre,
        Option::Some(info) => {
            let ms = members_of(pre.store.members@, info.group_id);
            &&& r == EmptyResult::Ok(())
            &&& post.now == pre.now
            &&& post.store.members@ == pre.store.members@
            &&& post.store.users@ == pre.store.users@
            &&& post.store.photos@ == pre.store.photos@
            &&& post.store.publications@ == pre.store.publications@
            &&& post.store.tallies@ == pre.store.tallies@
            &&& post.store.created_events@ == pre.store.created_events@
            &&& post.outbox@.len() == pre.outbox@.len() + ms.len()
            &&& post.outbox@.subrange(0, pre.outbox@.len() as int) == pre.outbox@
            &&& forall|k: int|
                0 <= k < ms.len() ==> mail_entry(
                    ms[k],
                    publication_mail_subject(body.name@),
                    publication_mail_body(ms[k].name@, body.scheduled_id),
                    #[trigger] post.outbox@[pre.outbox@.len() + k],
                )
            &&& post.store.mailbox@.len() == pre.store.mailbox@.len() + ms.len()
            &&& post.store.mailbox@.subrange(0, pre.store.mailbox@.len() as int)
                == pre.store.mailbox@
            &&& forall|k: int|
                0 <= k < ms.len() ==> mailbox_entry(
                    ms[k],
                    PHOTOMETER@,
                    publication_mail_subject(body.name@),
                    publication_mail_body(ms[k].name@, body.scheduled_id),
                    #[trigger] post.store.mailbox@[pre.store.mailbox@.len() + k],
                )
        },
    }
}

/// What `finish` leaves behind: on a payload of this variant, the group's
/// publications under this instance become visible, and exactly when some
/// member has not published, one late-publication descriptor covering
/// exactly those members is handed to the scheduler; on any other payload,
/// a decode error and no change.
pub open spec fn finish_post(
    pre: Context,
    post: Context,
    scheduled_id: Id,
    name: Seq<char>,
    data: Seq<u8>,
    r: EmptyResult,
) -> bool {
    match spec_decode_publication(data) {
        Option::None => r == EmptyResult::Err(
            CommonError::PayloadDecode { variant: PUBLICATION_ID },
        ) && post == pre,
        Option::Some(info) => {
            let stragglers = unpublished_of(
                members_of(pre.store.members@, info.group_id),
                pre.store.publications@,
                scheduled_id,
            );
            &&& r == EmptyResult::Ok(())
            &&& post.now == pre.now
            &&& post.outbox@ == pre.outbox@
            &&& post.store.members@ == pre.store.members@
            &&& post.store.users@ == pre.store.users@
            &&& post.store.photos@ == pre.store.photos@
            &&& post.store.tallies@ == pre.store.tallies@
            &&& post.store.mailbox@ == pre.store.mailbox@
            &&& post.store.publications@ == pre.store.publications@.map_values(
                |row: PubRow| row_made_visible(row, scheduled_id, info.group_id),
            )
            &&& if stragglers.len() == 0 {
                post.store.created_events@ == pre.store.created_events@
            } else {
                &&& post.store.created_events@.len() == pre.store.created_events@.len() + 1
                &&& post.store.created_events@.subrange(0, pre.store.created_events@.len() as int)
                    == pre.store.created_events@
                &&& late_event_entry(
                    post.store.created_events@.last(),
                    scheduled_id,
                    info.group_id,
                    name,
                    pre.now,
                    crate::store::ids_of(stragglers),
                )
            }
        },
    }
}

/// What `user_action_get` answers: always the instruction to choose a
/// photo from the gallery.
pub open spec fn user_action_get_post(r: AnswerResult) -> bool {
    r matches Result::Ok(a) && is_good_ok(a, "choose_from_gallery"@)
}

/// What `user_action_post` answers and changes: a photo submission is
/// recorded (invisible) exactly when the payload decodes, the photo
/// exists with a live owner account, and that owner is the requesting
/// user; every rejection leaves the state unchanged.
pub open spec fn user_action_post_post(
    pre: Context,
    post: Context,
    user: User,
    action: UserAction,
    body: ScheduledEventInfo,
    r: AnswerResult,
) -> bool {
    match action {
        UserAction::Ballot { .. } => r == AnswerResult::Err(CommonError::RequestDecode) && post
            == pre,
        UserAction::ChoosePhoto { photo_id } => match spec_decode_publication(body.data@) {
            Option::None => r == AnswerResult::Err(
                CommonError::PayloadDecode { variant: PUBLICATION_ID },
            ) && post == pre,
            Option::Some(info) => {
                let photo_known = has_photo_id(pre.store.photos@, photo_id) && has_user_id(
                    pre.store.users@,
                    photo_by_id(pre.store.photos@, photo_id).owner_id,
                );
                if !photo_known {
                    &&& r matches Result::Ok(a) && is_bad_photo_not_found(a)
                    &&& post == pre
                } else if user_by_id(
                    pre.store.users@,
                    photo_by_id(pre.store.photos@, photo_id).owner_id,
                ).name@ != user.name@ {
                    &&& r matches Result::Ok(a) && is_bad_access(a)
                    &&& post == pre
                } else {
                    &&& r matches Result::Ok(a) && is_good_ok(a, "published"@)
                    &&& post.store.publications@ == spec_public_photo(
                        pre.store.publications@,
                        body.scheduled_id,
                        info.group_id,
                        user.id,
                        photo_id,
                        false,
                    )
                    &&& post.now == pre.now
                    &&& post.outbox@ == pre.outbox@
                    &&& post.store.members@ == pre.store.members@
                    &&& post.store.users@ == pre.store.users@
                    &&& post.store.photos@ == pre.store.photos@
                    &&& post.store.tallies@ == pre.store.tallies@
                    &&& post.store.mailbox@ == pre.store.mailbox@
                    &&& post.store.created_events@ == pre.store.created_events@
                }
            },
        },
    }
}

/// What `info_get` answers: the member count and published count of this
/// instance's group, under this instance's name.
pub open spec fn info_get_post(store: crate::store::Store, body: ScheduledEventInfo, r: AnswerResult) -> bool {
    match spec_decode_publication(body.data@) {
        Option::None => r == AnswerResult::Err(
            CommonError::PayloadDecode { variant: PUBLICATION_ID },
        ),
        Option::Some(info) => {
            &&& r matches Result::Ok(a)
            &&& a matches Answer::Good(AnswerBody::Publication(p))
            &&& p.id == PUBLICATION_ID
            &&& p.name@ == body.name@
            &&& p.all_count == members_of(store.members@, info.group_id).len()
            &&& p.published == published_count(
                store.publications@,
                body.scheduled_id,
                info.group_id,
            )
        },
    }
}

} // verus!
