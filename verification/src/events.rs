//! The scheduled-event engine: shared record types, the variant registry
//! and the per-variant behaviour modules.

use vstd::prelude::*;

use crate::mailer::Mail;
use crate::store::Store;
use crate::types::Id;

pub mod group_voting;
pub mod late_publication;
pub mod publication;

verus! {

/// The parsed body of a user's request, as the transport layer hands it
/// in. Each variant of the engine accepts exactly one shape and rejects
/// the other.
pub enum UserAction {
    /// A photo chosen from the requesting user's gallery.
    ChoosePhoto { photo_id: Id },
    /// A yes/no ballot; any text other than `yes` counts as no.
    Ballot { vote: String },
}

/// What one hook invocation works against: the data-access model, the
/// outbox of external mail, and the wall-clock second the external
/// scheduler stamped on the invocation.
pub struct Context {
    pub store: Store,
    pub outbox: Vec<Mail>,
    pub now: u64,
}

/// Variant id of the publication behaviour.
pub const PUBLICATION_ID: Id = 1;

/// Variant id of the late-publication behaviour.
pub const LATE_PUBLICATION_ID: Id = 3;

/// Variant id of the group-voting decorator.
pub const GROUP_VOTING_ID: Id = 4;

/// One running occurrence of an event variant, as the external scheduler
/// hands it to a hook. `data` is an opaque blob owned by the variant that
/// `id` names; `state` is the scheduler's own lifecycle marker and is only
/// passed through.
pub struct ScheduledEventInfo {
    pub scheduled_id: Id,
    pub id: Id,
    pub name: String,
    pub state: String,
    pub data: Vec<u8>,
}

/// Everything needed to create a new scheduled instance: the variant, a
/// label, the closed active window and the variant's payload.
pub struct FullEventInfo {
    pub id: Id,
    pub name: String,
    pub start_time: u64,
    pub end_time: u64,
    pub data: Vec<u8>,
}

/// A window is well formed when it does not end before it starts.
pub open spec fn event_window_wf(e: FullEventInfo) -> bool {
    e.start_time <= e.end_time
}

/// The variants that expose the narrower change-by-voting capability and
/// may therefore be wrapped by the group-voting decorator.
pub enum ChangeKind {
    Publication(publication::Publication),
}

/// Resolves the decoratable variant registered under an id; an
/// unregistered id is a fatal mismatch between stored records and this
/// binary, never recovered silently.
pub fn get_change_by_voting(id: Id) -> (r: crate::types::CommonResult<ChangeKind>)
    ensures
        id == PUBLICATION_ID ==> r == crate::types::CommonResult::<ChangeKind>::Ok(
            ChangeKind::Publication(publication::Publication {  }),
        ),
        id != PUBLICATION_ID ==> r == crate::types::CommonResult::<ChangeKind>::Err(
            crate::types::CommonError::UnknownVariant { id },
        ),
{
    if id == PUBLICATION_ID {
        Ok(ChangeKind::Publication(publication::Publication::new()))
    } else {
        Err(crate::types::CommonError::UnknownVariant { id })
    }
}

impl ChangeKind {
    /// The wrapped variant's description of itself.
    pub fn get_info(&self, ctx: &Context, body: &ScheduledEventInfo) -> (r:
        crate::types::CommonResult<crate::answer::ChangeInfo>)
        ensures
            match *self {
                ChangeKind::Publication(_) => publication::change_info_post(
                    ctx.store,
                    body.scheduled_id,
                    body.name@,
                    body.data@,
                    r,
                ),
            },
    {
        match self {
            ChangeKind::Publication(p) => p.get_info(ctx, body),
        }
    }

    /// Applies the wrapped variant's change.
    pub fn apply(&self, ctx: &mut Context, group_id: Id, body: &ScheduledEventInfo) -> (r:
        crate::types::EmptyResult)
        requires
            old(ctx).store.wf(),
            old(ctx).now + late_publication::LATE_GRACE_SECONDS <= u64::MAX,
        ensures
            final(ctx).store.wf(),
            match *self {
                ChangeKind::Publication(_) => publication::finish_post(
                    *old(ctx),
                    *final(ctx),
                    body.scheduled_id,
                    body.name@,
                    body.data@,
                    r,
                ),
            },
    {
        match self {
            ChangeKind::Publication(p) => p.apply(ctx, group_id, body),
        }
    }
}

/// The full capability set registered under an id; the registry is fixed
/// at build time.
pub enum EventKind {
    Publication(publication::Publication),
    LatePublication(late_publication::LatePublication),
    GroupVoting(group_voting::GroupVoting),
}

/// Resolves the variant registered under an id; an unregistered id is a
/// fatal mismatch between stored records and this binary.
pub fn get_event(id: Id) -> (r: crate::types::CommonResult<EventKind>)
    ensures
        id == PUBLICATION_ID ==> r == crate::types::CommonResult::<EventKind>::Ok(
            EventKind::Publication(publication::Publication {  }),
        ),
        id == LATE_PUBLICATION_ID ==> r == crate::types::CommonResult::<EventKind>::Ok(
            EventKind::LatePublication(late_publication::LatePublication {  }),
        ),
        id == GROUP_VOTING_ID ==> r == crate::types::CommonResult::<EventKind>::Ok(
            EventKind::GroupVoting(group_voting::GroupVoting {  }),
        ),
        id != PUBLICATION_ID && id != LATE_PUBLICATION_ID && id != GROUP_VOTING_ID ==> r
            == crate::types::CommonResult::<EventKind>::Err(
            crate::types::CommonError::UnknownVariant { id },
        ),
{
    if id == PUBLICATION_ID {
        Ok(EventKind::Publication(publication::Publication::new()))
    } else if id == LATE_PUBLICATION_ID {
        Ok(EventKind::LatePublication(late_publication::LatePublication::new()))
    } else if id == GROUP_VOTING_ID {
        Ok(EventKind::GroupVoting(group_voting::GroupVoting::new()))
    } else {
        Err(crate::types::CommonError::UnknownVariant { id })
    }
}

impl EventKind {
    /// The id this variant is registered under.
    pub fn id(&self) -> (r: Id)
        ensures
            match *self {
                EventKind::Publication(_) => r == PUBLICATION_ID,
                EventKind::LatePublication(_) => r == LATE_PUBLICATION_ID,
                EventKind::GroupVoting(_) => r == GROUP_VOTING_ID,
            },
    {
        match self {
            EventKind::Publication(p) => p.id(),
            EventKind::LatePublication(p) => p.id(),
            EventKind::GroupVoting(p) => p.id(),
        }
    }

    /// Invoked once when the instance's active window begins.
    pub fn start(&self, ctx: &mut Context, body: &ScheduledEventInfo) -> (r:
        crate::types::EmptyResult)
        requires
            old(ctx).store.wf(),
        ensures
            final(ctx).store.wf(),
            match *self {
                EventKind::Publication(_) => publication::start_post(
                    *old(ctx),
                    *final(ctx),
                    *body,
                    r,
                ),
                EventKind::LatePublication(_) => late_publication::start_post(
                    *old(ctx),
                    *final(ctx),
                    *body,
                    r,
                ),
                EventKind::GroupVoting(_) => group_voting::start_post(
                    *old(ctx),
                    *final(ctx),
                    *body,
                    r,
                ),
            },
    {
        match self {
            EventKind::Publication(p) => p.start(ctx, body),
            EventKind::LatePublication(p) => p.start(ctx, body),
            EventKind::GroupVoting(p) => p.start(ctx, body),
        }
    }

    /// Invoked once when the active window ends, by wall clock or early
    /// completion.
    pub fn finish(&self, ctx: &mut Context, body: &ScheduledEventInfo) -> (r:
        crate::types::EmptyResult)
        requires
            old(ctx).store.wf(),
            old(ctx).now + late_publication::LATE_GRACE_SECONDS <= u64::MAX,
        ensures
            final(ctx).store.wf(),
            match *self {
                EventKind::Publication(_) => publication::finish_post(
                    *old(ctx),
                    *final(ctx),
                    body.scheduled_id,
                    body.name@,
                    body.data@,
                    r,
                ),
                EventKind::LatePublication(_) => r == crate::types::EmptyResult::Ok(())
                    && *final(ctx) == *old(ctx),
                EventKind::GroupVoting(_) => group_voting::finish_post(
                    *old(ctx),
                    *final(ctx),
                    *body,
                    r,
                ),
            },
    {
        match self {
            EventKind::Publication(p) => p.finish(ctx, body),
            EventKind::LatePublication(p) => p.finish(ctx, body),
            EventKind::GroupVoting(p) => p.finish(ctx, body),
        }
    }

    /// Read-only description of what the requesting user should do now.
    pub fn user_action_get(&self, ctx: &Context, user: &crate::types::User, body:
        &ScheduledEventInfo) -> (r: crate::answer::AnswerResult)
        requires
            ctx.store.wf(),
        ensures
            match *self {
                EventKind::Publication(_) => publication::user_action_get_post(r),
                EventKind::LatePublication(_) => late_publication::user_action_get_post(
                    *user,
                    *body,
                    r,
                ),
                EventKind::GroupVoting(_) => group_voting::user_action_get_post(
                    ctx.store,
                    *user,
                    *body,
                    r,
                ),
            },
    {
        match self {
            EventKind::Publication(p) => p.user_action_get(ctx, user, body),
            EventKind::LatePublication(p) => p.user_action_get(ctx, user, body),
            EventKind::GroupVoting(p) => p.user_action_get(ctx, user, body),
        }
    }

    /// Applies the requesting user's submitted action, re-validating
    /// eligibility at call time.
    pub fn user_action_post(
        &self,
        ctx: &mut Context,
        user: &crate::types::User,
        action: &UserAction,
        body: &ScheduledEventInfo,
    ) -> (r: crate::answer::AnswerResult)
        requires
            old(ctx).store.wf(),
        ensures
            final(ctx).store.wf(),
            match *self {
                EventKind::Publication(_) => publication::user_action_post_post(
                    *old(ctx),
                    *final(ctx),
                    *user,
                    *action,
                    *body,
                    r,
                ),
                EventKind::LatePublication(_) => late_publication::user_action_post_post(
                    *old(ctx),
                    *final(ctx),
                    *user,
                    *action,
                    *body,
                    r,
                ),
                EventKind::GroupVoting(_) => group_voting::user_action_post_post(
                    *old(ctx),
                    *final(ctx),
                    *user,
                    *action,
                    *body,
                    r,
                ),
            },
    {
        match self {
            EventKind::Publication(p) => p.user_action_post(ctx, user, action, body),
            EventKind::LatePublication(p) => p.user_action_post(ctx, user, action, body),
            EventKind::GroupVoting(p) => p.user_action_post(ctx, user, action, body),
        }
    }

    /// Status snapshot suitable for display.
    pub fn info_get(&self, ctx: &Context, user: &crate::types::User, body: &ScheduledEventInfo)
        -> (r: crate::answer::AnswerResult)
        requires
            ctx.store.wf(),
        ensures
            match *self {
                EventKind::Publication(_) => publication::info_get_post(ctx.store, *body, r),
                EventKind::LatePublication(_) => late_publication::info_get_post(
                    ctx.store,
                    *body,
                    r,
                ),
                EventKind::GroupVoting(_) => group_voting::info_get_post(ctx.store, *body, r),
            },
    {
        match self {
            EventKind::Publication(p) => p.info_get(ctx, user, body),
            EventKind::LatePublication(p) => p.info_get(ctx, user, body),
            EventKind::GroupVoting(p) => p.info_get(ctx, user, body),
        }
    }

    /// True when the instance's purpose is already satisfied and the
    /// scheduler may finish it early.
    pub fn is_complete(&self, ctx: &Context, body: &ScheduledEventInfo) -> (r:
        crate::types::CommonResult<bool>)
        requires
            ctx.store.wf(),
        ensures
            match *self {
                EventKind::Publication(_) => r == crate::types::CommonResult::<bool>::Ok(false),
                EventKind::LatePublication(_) => late_publication::is_complete_post(
                    ctx.store,
                    *body,
                    r,
                ),
                EventKind::GroupVoting(_) => group_voting::is_complete_post(ctx.store, *body, r),
            },
    {
        match self {
            EventKind::Publication(p) => p.is_complete(ctx, body),
            EventKind::LatePublication(p) => p.is_complete(ctx, body),
            EventKind::GroupVoting(p) => p.is_complete(ctx, body),
        }
    }
}

/// Copies a byte blob.
pub fn clone_bytes(v: &Vec<u8>) -> (r: Vec<u8>)
    ensures
        r@ == v@,
{
    let mut out: Vec<u8> = Vec::new();
    let mut i: usize = 0;
    while i < v.len()
        invariant
            i <= v@.len(),
            out@ == v@.subrange(0, i as int),
        decreases v@.len() - i,
    {
        out.push(v[i]);
        proof {
            assert(out@ =~= v@.subrange(0, i as int + 1));
        }
        i += 1;
    }
    proof {
        assert(out@ =~= v@);
    }
    out
}

} // verus!
