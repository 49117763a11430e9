//! In-memory data-access model.
//!
//! The event engine reads and writes persistent state only through the
//! operations of [`Store`]; each operation is a single atomic step with an
//! exact contract, which is the atomicity the engine expects of the storage
//! layer. A deployment backs the same operations with a database; this
//! model is what the engine's proofs and tests run against.

use vstd::multiset::Multiset;
use vstd::prelude::*;

use crate::events::FullEventInfo;
use crate::tally::{distinct_ids, Votes};
use crate::types::{CommonError, CommonResult, EmptyResult, Id, PhotoRecord, User};

verus! {

/// Membership of one user in one group.
pub struct MemberRow {
    pub group_id: Id,
    pub user: User,
}

/// One recorded publication: a user's photo submitted under a scheduled
/// instance for a group, visible or not yet.
#[derive(Clone, Copy, PartialEq, Eq, Structural, Debug)]
pub struct PubRow {
    pub scheduled_id: Id,
    pub group_id: Id,
    pub user_id: Id,
    pub photo_id: Id,
    pub visible: bool,
}

/// The vote tally of one scheduled instance.
pub struct TallyRow {
    pub scheduled_id: Id,
    pub votes: Votes,
}

/// One account.
pub struct UserRow {
    pub id: Id,
    pub name: String,
    pub pass: String,
    pub mail: String,
}

/// One internal notification delivered to a user's in-application mailbox.
pub struct MailRow {
    pub user_id: Id,
    pub sender: String,
    pub subject: String,
    pub body: String,
}

/// The users of `rows` that belong to group `g`, in storage order.
pub open spec fn members_of(rows: Seq<MemberRow>, g: Id) -> Seq<User>
    decreases rows.len(),
{
    if rows.len() == 0 {
        Seq::<User>::empty()
    } else {
        let rest = members_of(rows.drop_last(), g);
        if rows.last().group_id == g {
            rest.push(rows.last().user)
        } else {
            rest
        }
    }
}

/// The ids of a user list.
pub open spec fn ids_of(users: Seq<User>) -> Seq<Id> {
    users.map_values(|u: User| u.id)
}

/// How many accounts carry this login name.
pub open spec fn count_name(users: Seq<UserRow>, name: Seq<char>) -> nat
    decreases users.len(),
{
    if users.len() == 0 {
        0
    } else {
        count_name(users.drop_last(), name) + if users.last().name@ == name {
            1nat
        } else {
            0nat
        }
    }
}

/// Some account has this id.
pub open spec fn has_user_id(users: Seq<UserRow>, id: Id) -> bool {
    exists|i: int| 0 <= i < users.len() && users[i].id == id
}

/// The account with this id (meaningful when ids are unique and one
/// exists).
pub open spec fn user_by_id(users: Seq<UserRow>, id: Id) -> UserRow {
    users[choose|i: int| 0 <= i < users.len() && users[i].id == id]
}

/// Some stored photo has this id.
pub open spec fn has_photo_id(photos: Seq<PhotoRecord>, id: Id) -> bool {
    exists|i: int| 0 <= i < photos.len() && photos[i].id == id
}

/// The photo with this id (meaningful when ids are unique and one exists).
pub open spec fn photo_by_id(photos: Seq<PhotoRecord>, id: Id) -> PhotoRecord {
    photos[choose|i: int| 0 <= i < photos.len() && photos[i].id == id]
}

/// The largest id in use among the accounts, or zero.
pub open spec fn max_user_id(users: Seq<UserRow>) -> Id
    decreases users.len(),
{
    if users.len() == 0 {
        0
    } else {
        let rest = max_user_id(users.drop_last());
        if users.last().id > rest {
            users.last().id
        } else {
            rest
        }
    }
}

/// The largest id in use among the photos, or zero.
pub open spec fn max_photo_id(photos: Seq<PhotoRecord>) -> Id
    decreases photos.len(),
{
    if photos.len() == 0 {
        0
    } else {
        let rest = max_photo_id(photos.drop_last());
        if photos.last().id > rest {
            photos.last().id
        } else {
            rest
        }
    }
}

/// The position of the photo with this id (meaningful when ids are unique
/// and one exists).
pub open spec fn photo_index(photos: Seq<PhotoRecord>, id: Id) -> int {
    choose|i: int| 0 <= i < photos.len() && (#[trigger] photos[i]).id == id
}

/// How many photos of this owner were uploaded in the closed interval
/// `[start, end]`.
pub open spec fn count_photos_between(
    photos: Seq<PhotoRecord>,
    owner: Id,
    start: u64,
    end: u64,
) -> nat
    decreases photos.len(),
{
    if photos.len() == 0 {
        0
    } else {
        count_photos_between(photos.drop_last(), owner, start, end) + if photos.last().owner_id
            == owner && start <= photos.last().upload_time <= end {
            1nat
        } else {
            0nat
        }
    }
}

/// The photos of this owner uploaded in the closed interval
/// `[start, end]`, in storage order.
pub open spec fn photos_between_seq(
    photos: Seq<PhotoRecord>,
    owner: Id,
    start: u64,
    end: u64,
) -> Seq<PhotoRecord>
    decreases photos.len(),
{
    if photos.len() == 0 {
        Seq::<PhotoRecord>::empty()
    } else {
        let rest = photos_between_seq(photos.drop_last(), owner, start, end);
        if photos.last().owner_id == owner && start <= photos.last().upload_time <= end {
            rest.push(photos.last())
        } else {
            rest
        }
    }
}

/// The photos run from newest to oldest.
pub open spec fn newest_first(s: Seq<PhotoRecord>) -> bool {
    forall|i: int, j: int| 0 <= i < j < s.len() ==> s[i].upload_time >= s[j].upload_time
}

/// Holds when `r` is the `[offset, offset + count)` window of some
/// newest-first arrangement of exactly the photos in `qual`. Which of two
/// photos sharing an upload time comes first is the storage layer's
/// choice, so the arrangement is existential.
pub open spec fn gallery_page_of(
    r: Seq<PhotoRecord>,
    qual: Seq<PhotoRecord>,
    offset: nat,
    count: nat,
) -> bool {
    exists|s: Seq<PhotoRecord>|
        {
            let n = s.len() as int;
            let lo = if offset as int > n {
                n
            } else {
                offset as int
            };
            let hi = if lo + count as int > n {
                n
            } else {
                lo + count as int
            };
            &&& #[trigger] newest_first(s)
            &&& s.to_multiset() == qual.to_multiset()
            &&& r == s.subrange(lo, hi)
        }
}

/// The owner has a photo strictly older than the upload time `t`.
pub open spec fn has_earlier_photo(photos: Seq<PhotoRecord>, owner: Id, t: u64) -> bool {
    exists|j: int|
        0 <= j < photos.len() && (#[trigger] photos[j]).owner_id == owner
            && photos[j].upload_time < t
}

/// The owner has a photo strictly newer than the upload time `t`.
pub open spec fn has_later_photo(photos: Seq<PhotoRecord>, owner: Id, t: u64) -> bool {
    exists|j: int|
        0 <= j < photos.len() && (#[trigger] photos[j]).owner_id == owner
            && photos[j].upload_time > t
}

/// Holds when `id` names a photo of `owner` whose upload time is the
/// largest one strictly below `t`: the previous photo in the gallery.
pub open spec fn is_prev_in_gallery(photos: Seq<PhotoRecord>, owner: Id, t: u64, id: Id) -> bool {
    exists|j: int|
        {
            &&& 0 <= j < photos.len()
            &&& (#[trigger] photos[j]).id == id
            &&& photos[j].owner_id == owner
            &&& photos[j].upload_time < t
            &&& forall|k: int|
                0 <= k < photos.len() && (#[trigger] photos[k]).owner_id == owner
                    && photos[k].upload_time < t ==> photos[k].upload_time
                    <= photos[j].upload_time
        }
}

/// Holds when `id` names a photo of `owner` whose upload time is the
/// smallest one strictly above `t`: the next photo in the gallery.
pub open spec fn is_next_in_gallery(photos: Seq<PhotoRecord>, owner: Id, t: u64, id: Id) -> bool {
    exists|j: int|
        {
            &&& 0 <= j < photos.len()
            &&& (#[trigger] photos[j]).id == id
            &&& photos[j].owner_id == owner
            &&& photos[j].upload_time > t
            &&& forall|k: int|
                0 <= k < photos.len() && (#[trigger] photos[k]).owner_id == owner
                    && photos[k].upload_time > t ==> photos[k].upload_time
                    >= photos[j].upload_time
        }
}

/// Some publication row exists for this scheduled instance and user.
pub open spec fn has_pub_row(pubs: Seq<PubRow>, sch: Id, uid: Id) -> bool {
    exists|i: int|
        0 <= i < pubs.len() && (#[trigger] pubs[i]).scheduled_id == sch && pubs[i].user_id == uid
}

/// The position of the publication row of (`sch`, `uid`) (meaningful when
/// rows are keyed uniquely and one exists).
pub open spec fn pub_row_index(pubs: Seq<PubRow>, sch: Id, uid: Id) -> int {
    choose|i: int|
        0 <= i < pubs.len() && (#[trigger] pubs[i]).scheduled_id == sch && pubs[i].user_id == uid
}

/// The publication rows after a user submits a photo: a resubmission only
/// replaces the photo, a first submission appends a full row.
pub open spec fn spec_public_photo(
    pubs: Seq<PubRow>,
    sch: Id,
    g: Id,
    uid: Id,
    pid: Id,
    vis: bool,
) -> Seq<PubRow> {
    if has_pub_row(pubs, sch, uid) {
        let i = pub_row_index(pubs, sch, uid);
        pubs.update(i, (PubRow { photo_id: pid, ..pubs[i] }))
    } else {
        pubs.push(
            (PubRow { scheduled_id: sch, group_id: g, user_id: uid, photo_id: pid, visible: vis }),
        )
    }
}

/// The row as the visibility sweep of (`sch`, `g`) leaves it.
pub open spec fn row_made_visible(r: PubRow, sch: Id, g: Id) -> PubRow {
    if r.scheduled_id == sch && r.group_id == g {
        PubRow { visible: true, ..r }
    } else {
        r
    }
}

/// How many publication rows instance `sch` has for group `g`.
pub open spec fn published_count(pubs: Seq<PubRow>, sch: Id, g: Id) -> nat
    decreases pubs.len(),
{
    if pubs.len() == 0 {
        0
    } else {
        published_count(pubs.drop_last(), sch, g) + if pubs.last().scheduled_id == sch
            && pubs.last().group_id == g {
            1nat
        } else {
            0nat
        }
    }
}

/// Some publication row exists for this instance, group and user.
pub open spec fn has_group_pub(pubs: Seq<PubRow>, sch: Id, g: Id, uid: Id) -> bool {
    exists|i: int|
        0 <= i < pubs.len() && (#[trigger] pubs[i]).scheduled_id == sch && pubs[i].group_id == g
            && pubs[i].user_id == uid
}

/// The users of `users` that have no publication row under instance `sch`,
/// in order.
pub open spec fn unpublished_of(users: Seq<User>, pubs: Seq<PubRow>, sch: Id) -> Seq<User>
    decreases users.len(),
{
    if users.len() == 0 {
        Seq::<User>::empty()
    } else {
        let rest = unpublished_of(users.drop_last(), pubs, sch);
        if !has_pub_row(pubs, sch, users.last().id) {
            rest.push(users.last())
        } else {
            rest
        }
    }
}

/// A tally exists for this scheduled instance.
pub open spec fn has_tally(tallies: Seq<TallyRow>, sch: Id) -> bool {
    exists|i: int| 0 <= i < tallies.len() && (#[trigger] tallies[i]).scheduled_id == sch
}

/// The position of the tally of `sch` (meaningful when one exists).
pub open spec fn tally_index(tallies: Seq<TallyRow>, sch: Id) -> int {
    choose|i: int| 0 <= i < tallies.len() && (#[trigger] tallies[i]).scheduled_id == sch
}

/// The persistent state the engine works against.
pub struct Store {
    pub members: Vec<MemberRow>,
    pub users: Vec<UserRow>,
    pub photos: Vec<PhotoRecord>,
    pub publications: Vec<PubRow>,
    pub tallies: Vec<TallyRow>,
    pub mailbox: Vec<MailRow>,
    pub created_events: Vec<FullEventInfo>,
}

impl Store {
    /// The storage keys are unique: a user is in a group once, accounts and
    /// photos have one row per id, a user has one publication row per
    /// scheduled instance, and an instance has one tally.
    pub open spec fn wf(self) -> bool {
        &&& forall|i: int, j: int|
            0 <= i < j < self.members@.len() ==> !(self.members@[i].group_id
                == self.members@[j].group_id && self.members@[i].user.id
                == self.members@[j].user.id)
        &&& forall|i: int, j: int|
            0 <= i < j < self.users@.len() ==> self.users@[i].id != self.users@[j].id
        &&& forall|i: int, j: int|
            0 <= i < j < self.photos@.len() ==> self.photos@[i].id != self.photos@[j].id
        &&& forall|i: int, j: int|
            0 <= i < j < self.publications@.len() ==> !(self.publications@[i].scheduled_id
                == self.publications@[j].scheduled_id && self.publications@[i].user_id
                == self.publications@[j].user_id)
        &&& forall|i: int, j: int|
            0 <= i < j < self.tallies@.len() ==> self.tallies@[i].scheduled_id
                != self.tallies@[j].scheduled_id
        &&& forall|i: int| 0 <= i < self.tallies@.len() ==> (#[trigger] self.tallies@[i]).votes.wf()
    }

    /// An empty store.
    pub fn new() -> (r: Store)
        ensures
            r.members@ == Seq::<MemberRow>::empty(),
            r.users@ == Seq::<UserRow>::empty(),
            r.photos@ == Seq::<PhotoRecord>::empty(),
            r.publications@ == Seq::<PubRow>::empty(),
            r.tallies@ == Seq::<TallyRow>::empty(),
            r.mailbox@ == Seq::<MailRow>::empty(),
            r.created_events@ == Seq::<FullEventInfo>::empty(),
            r.wf(),
    {
        let r = Store {
            members: Vec::new(),
            users: Vec::new(),
            photos: Vec::new(),
            publications: Vec::new(),
            tallies: Vec::new(),
            mailbox: Vec::new(),
            created_events: Vec::new(),
        };
        proof {
            assert(r.members@ =~= Seq::<MemberRow>::empty());
            assert(r.users@ =~= Seq::<UserRow>::empty());
            assert(r.photos@ =~= Seq::<PhotoRecord>::empty());
            assert(r.publications@ =~= Seq::<PubRow>::empty());
            assert(r.tallies@ =~= Seq::<TallyRow>::empty());
            assert(r.mailbox@ =~= Seq::<MailRow>::empty());
            assert(r.created_events@ =~= Seq::<FullEventInfo>::empty());
        }
        r
    }

    /// Puts a user into a group; a second enrolment of the same user in the
    /// same group changes nothing.
    pub fn add_member(&mut self, group_id: Id, user: &User)
        requires
            old(self).wf(),
        ensures
            final(self).wf(),
            ({
                let was = exists|i: int|
                    0 <= i < old(self).members@.len() && (#[trigger] old(self).members@[i]).group_id
                        == group_id && old(self).members@[i].user.id == user.id;
                if was {
                    final(self).members@ == old(self).members@
                } else {
                    final(self).members@ == old(self).members@.push(
                        (MemberRow { group_id, user: *user }),
                    )
                }
            }),
            final(self).users@ == old(self).users@,
            final(self).photos@ == old(self).photos@,
            final(self).publications@ == old(self).publications@,
            final(self).tallies@ == old(self).tallies@,
            final(self).mailbox@ == old(self).mailbox@,
            final(self).created_events@ == old(self).created_events@,
    {
        let mut i: usize = 0;
        while i < self.members.len()
            invariant
                *self == *old(self),
                old(self).wf(),
                i <= self.members@.len(),
                forall|k: int|
                    0 <= k < i ==> !((#[trigger] self.members@[k]).group_id == group_id
                        && self.members@[k].user.id == user.id),
            decreases self.members@.len() - i,
        {
            if self.members[i].group_id == group_id && self.members[i].user.id == user.id {
                return ;
            }
            i += 1;
        }
        self.members.push(MemberRow { group_id, user: user.clone() });
    }

    /// All members of a group, in storage order.
    pub fn get_members(&self, group_id: Id) -> (r: Vec<User>)
        ensures
            r@ == members_of(self.members@, group_id),
    {
        let mut out: Vec<User> = Vec::new();
        let mut i: usize = 0;
        while i < self.members.len()
            invariant
                i <= self.members@.len(),
                out@ == members_of(self.members@.subrange(0, i as int), group_id),
            decreases self.members@.len() - i,
        {
            proof {
                let sub = self.members@.subrange(0, i as int + 1);
                assert(sub.drop_last() =~= self.members@.subrange(0, i as int));
                assert(sub.last() == self.members@[i as int]);
            }
            if self.members[i].group_id == group_id {
                out.push(self.members[i].user.clone());
            }
            i += 1;
        }
        proof {
            assert(self.members@.subrange(0, self.members@.len() as int) =~= self.members@);
        }
        out
    }

    /// How many users a group has.
    pub fn get_members_count(&self, group_id: Id) -> (r: usize)
        ensures
            r == members_of(self.members@, group_id).len(),
    {
        let mut count: usize = 0;
        let mut i: usize = 0;
        while i < self.members.len()
            invariant
                i <= self.members@.len(),
                count == members_of(self.members@.subrange(0, i as int), group_id).len(),
                count <= i,
            decreases self.members@.len() - i,
        {
            proof {
                let sub = self.members@.subrange(0, i as int + 1);
                assert(sub.drop_last() =~= self.members@.subrange(0, i as int));
                assert(sub.last() == self.members@[i as int]);
            }
            if self.members[i].group_id == group_id {
                count += 1;
            }
            i += 1;
        }
        proof {
            assert(self.members@.subrange(0, self.members@.len() as int) =~= self.members@);
        }
        count
    }

    /// The largest account id in use.
    fn max_user_id_exec(&self) -> (r: Id)
        ensures
            r == max_user_id(self.users@),
    {
        let mut top: Id = 0;
        let mut i: usize = 0;
        while i < self.users.len()
            invariant
                i <= self.users@.len(),
                top == max_user_id(self.users@.subrange(0, i as int)),
            decreases self.users@.len() - i,
        {
            proof {
                let sub = self.users@.subrange(0, i as int + 1);
                assert(sub.drop_last() =~= self.users@.subrange(0, i as int));
                assert(sub.last() == self.users@[i as int]);
            }
            if self.users[i].id > top {
                top = self.users[i].id;
            }
            i += 1;
        }
        proof {
            assert(self.users@.subrange(0, self.users@.len() as int) =~= self.users@);
        }
        top
    }
}

/// The account operations the engine's surroundings rely on; the store
/// implements them over its user table.
pub trait DbUsers: Sized {
    /// The account table behind this handle.
    spec fn user_rows(&self) -> Seq<UserRow>;

    /// The handle's well-formedness, which every operation preserves.
    spec fn users_wf(&self) -> bool;

    /// Nothing outside the account table differs between the two states.
    spec fn users_frame(&self, other: &Self) -> bool;

    /// The id of the account carrying this login and password, if one
    /// does. When several match, the id of one of them comes back.
    fn get_user(&self, name: &str, pass: &str) -> (r: Option<Id>)
        ensures
            r is Some <==> exists|i: int|
                0 <= i < self.user_rows().len() && (#[trigger] self.user_rows()[i]).name@ == name@
                    && self.user_rows()[i].pass@ == pass@,
            r matches Some(id) ==> exists|i: int|
                0 <= i < self.user_rows().len() && (#[trigger] self.user_rows()[i]).id == id
                    && self.user_rows()[i].name@ == name@ && self.user_rows()[i].pass@ == pass@,
    ;

    /// Creates an account under a fresh id.
    fn add_user(&mut self, name: &str, pass: &str) -> (r: EmptyResult)
        requires
            old(self).users_wf(),
        ensures
            final(self).users_wf(),
            old(self).users_frame(final(self)),
            max_user_id(old(self).user_rows()) == u64::MAX ==> r == EmptyResult::Err(
                CommonError::DataAccess,
            ) && final(self).user_rows() == old(self).user_rows(),
            max_user_id(old(self).user_rows()) < u64::MAX ==> {
                &&& r == EmptyResult::Ok(())
                &&& final(self).user_rows().len() == old(self).user_rows().len() + 1
                &&& final(self).user_rows().subrange(0, old(self).user_rows().len() as int) == old(
                    self,
                ).user_rows()
                &&& final(self).user_rows().last().id == max_user_id(old(self).user_rows()) + 1
                &&& final(self).user_rows().last().name@ == name@
                &&& final(self).user_rows().last().pass@ == pass@
                &&& final(self).user_rows().last().mail@ == Seq::<char>::empty()
            },
    ;

    /// Whether exactly one account carries this login name.
    fn user_exists(&self, name: &str) -> (r: bool)
        ensures
            r == (count_name(self.user_rows(), name@) == 1),
    ;

    /// Whether an account with this id exists.
    fn user_id_exists(&self, id: Id) -> (r: bool)
        ensures
            r == has_user_id(self.user_rows(), id),
    ;
}

impl DbUsers for Store {
    open spec fn user_rows(&self) -> Seq<UserRow> {
        self.users@
    }

    open spec fn users_wf(&self) -> bool {
        self.wf()
    }

    open spec fn users_frame(&self, other: &Self) -> bool {
        &&& other.members@ == self.members@
        &&& other.photos@ == self.photos@
        &&& other.publications@ == self.publications@
        &&& other.tallies@ == self.tallies@
        &&& other.mailbox@ == self.mailbox@
        &&& other.created_events@ == self.created_events@
    }

    fn get_user(&self, name: &str, pass: &str) -> (r: Option<Id>) {
        let wanted_name = name.to_owned();
        let wanted_pass = pass.to_owned();
        let mut i: usize = 0;
        while i < self.users.len()
            invariant
                i <= self.users@.len(),
                wanted_name@ == name@,
                wanted_pass@ == pass@,
                forall|k: int|
                    0 <= k < i ==> !((#[trigger] self.users@[k]).name@ == name@
                        && self.users@[k].pass@ == pass@),
            decreases self.users@.len() - i,
        {
            if self.users[i].name.eq(&wanted_name) && self.users[i].pass.eq(&wanted_pass) {
                proof {
                    assert(0 <= i < self.user_rows().len() && self.user_rows()[i as int].name@
                        == name@ && self.user_rows()[i as int].pass@ == pass@);
                }
                return Some(self.users[i].id);
            }
            i += 1;
        }
        None
    }

    fn add_user(&mut self, name: &str, pass: &str) -> (r: EmptyResult) {
        let top = self.max_user_id_exec();
        if top == u64::MAX {
            return Err(CommonError::DataAccess);
        }
        let row = UserRow {
            id: top + 1,
            name: name.to_owned(),
            pass: pass.to_owned(),
            mail: String::new(),
        };
        proof {
            lemma_max_user_id_bounds(self.users@);
        }
        self.users.push(row);
        proof {
            assert(final(self).users@.subrange(0, old(self).users@.len() as int) =~= old(
                self,
            ).users@);
        }
        Ok(())
    }

    fn user_exists(&self, name: &str) -> (r: bool) {
        let wanted = name.to_owned();
        let mut count: usize = 0;
        let mut i: usize = 0;
        while i < self.users.len()
            invariant
                i <= self.users@.len(),
                wanted@ == name@,
                count == count_name(self.users@.subrange(0, i as int), name@),
                count <= i,
            decreases self.users@.len() - i,
        {
            proof {
                let sub = self.users@.subrange(0, i as int + 1);
                assert(sub.drop_last() =~= self.users@.subrange(0, i as int));
                assert(sub.last() == self.users@[i as int]);
            }
            if self.users[i].name.eq(&wanted) {
                count += 1;
            }
            i += 1;
        }
        proof {
            assert(self.users@.subrange(0, self.users@.len() as int) =~= self.users@);
        }
        count == 1
    }

    fn user_id_exists(&self, id: Id) -> (r: bool) {
        let mut i: usize = 0;
        while i < self.users.len()
            invariant
                i <= self.users@.len(),
                forall|k: int| 0 <= k < i ==> (#[trigger] self.users@[k]).id != id,
            decreases self.users@.len() - i,
        {
            if self.users[i].id == id {
                return true;
            }
            i += 1;
        }
        false
    }
}

impl Store {
    /// Stores a photo for a user under a fresh id and returns that id.
    pub fn add_photo(&mut self, user_id: Id, info: &PhotoRecord) -> (r: CommonResult<Id>)
        requires
            old(self).wf(),
        ensures
            final(self).wf(),
            max_photo_id(old(self).photos@) == u64::MAX ==> r == CommonResult::<Id>::Err(
                CommonError::DataAccess,
            ) && *final(self) == *old(self),
            max_photo_id(old(self).photos@) < u64::MAX ==> {
                &&& r == CommonResult::<Id>::Ok((max_photo_id(old(self).photos@) + 1) as Id)
                &&& final(self).photos@.len() == old(self).photos@.len() + 1
                &&& final(self).photos@.subrange(0, old(self).photos@.len() as int) == old(
                    self,
                ).photos@
                &&& final(self).photos@.last() == (PhotoRecord {
                    id: (max_photo_id(old(self).photos@) + 1) as Id,
                    owner_id: user_id,
                    upload_time: info.upload_time,
                    image_type: info.image_type,
                    width: info.width,
                    height: info.height,
                    name: info.name,
                })
            },
            final(self).members@ == old(self).members@,
            final(self).users@ == old(self).users@,
            final(self).publications@ == old(self).publications@,
            final(self).tallies@ == old(self).tallies@,
            final(self).mailbox@ == old(self).mailbox@,
            final(self).created_events@ == old(self).created_events@,
    {
        let top = self.max_photo_id_exec();
        if top == u64::MAX {
            return Err(CommonError::DataAccess);
        }
        let row = PhotoRecord {
            id: top + 1,
            owner_id: user_id,
            upload_time: info.upload_time,
            image_type: info.image_type,
            width: info.width,
            height: info.height,
            name: info.name.clone(),
        };
        proof {
            lemma_max_photo_id_bounds(self.photos@);
        }
        self.photos.push(row);
        proof {
            assert(final(self).photos@.subrange(0, old(self).photos@.len() as int) =~= old(
                self,
            ).photos@);
        }
        Ok(top + 1)
    }

    /// The largest photo id in use.
    fn max_photo_id_exec(&self) -> (r: Id)
        ensures
            r == max_photo_id(self.photos@),
    {
        let mut top: Id = 0;
        let mut i: usize = 0;
        while i < self.photos.len()
            invariant
                i <= self.photos@.len(),
                top == max_photo_id(self.photos@.subrange(0, i as int)),
            decreases self.photos@.len() - i,
        {
            proof {
                let sub = self.photos@.subrange(0, i as int + 1);
                assert(sub.drop_last() =~= self.photos@.subrange(0, i as int));
                assert(sub.last() == self.photos@[i as int]);
            }
            if self.photos[i].id > top {
                top = self.photos[i].id;
            }
            i += 1;
        }
        proof {
            assert(self.photos@.subrange(0, self.photos@.len() as int) =~= self.photos@);
        }
        top
    }

    /// The owner's login and the photo record for a photo id; nothing when
    /// the photo is absent or its owner's account is gone.
    pub fn get_photo_info(&self, photo_id: Id) -> (r: Option<(String, PhotoRecord)>)
        requires
            self.wf(),
        ensures
            r is Some <==> (has_photo_id(self.photos@, photo_id) && has_user_id(
                self.users@,
                photo_by_id(self.photos@, photo_id).owner_id,
            )),
            r matches Some(p) ==> {
                &&& p.1 == photo_by_id(self.photos@, photo_id)
                &&& p.0@ == user_by_id(self.users@, photo_by_id(self.photos@, photo_id).owner_id).name@
            },
    {
        let mut i: usize = 0;
        while i < self.photos.len()
            invariant
                self.wf(),
                i <= self.photos@.len(),
                forall|k: int| 0 <= k < i ==> (#[trigger] self.photos@[k]).id != photo_id,
            decreases self.photos@.len() - i,
        {
            if self.photos[i].id == photo_id {
                let photo = self.photos[i].clone();
                proof {
                    let c = choose|k: int|
                        0 <= k < self.photos@.len() && self.photos@[k].id == photo_id;
                    assert(self.photos@[i as int].id == photo_id);
                    assert(c == i as int);
                }
                let mut j: usize = 0;
                while j < self.users.len()
                    invariant
                        self.wf(),
                        j <= self.users@.len(),
                        has_photo_id(self.photos@, photo_id),
                        photo == photo_by_id(self.photos@, photo_id),
                        forall|k: int|
                            0 <= k < j ==> (#[trigger] self.users@[k]).id != photo.owner_id,
                    decreases self.users@.len() - j,
                {
                    if self.users[j].id == photo.owner_id {
                        proof {
                            let c = choose|k: int|
                                0 <= k < self.users@.len() && self.users@[k].id == photo.owner_id;
                            assert(self.users@[j as int].id == photo.owner_id);
                            assert(c == j as int);
                        }
                        return Some((self.users[j].name.clone(), photo));
                    }
                    j += 1;
                }
                return None;
            }
            i += 1;
        }
        None
    }

    /// The stored password of the account carrying this login, if one
    /// does. When several match, the password of one of them comes back.
    pub fn user_password(&self, name: &str) -> (r: Option<String>)
        ensures
            r is Some <==> exists|i: int|
                0 <= i < self.users@.len() && (#[trigger] self.users@[i]).name@ == name@,
            r matches Some(pass) ==> exists|i: int|
                0 <= i < self.users@.len() && (#[trigger] self.users@[i]).name@ == name@
                    && self.users@[i].pass@ == pass@,
    {
        let wanted = name.to_owned();
        let mut i: usize = 0;
        while i < self.users.len()
            invariant
                i <= self.users@.len(),
                wanted@ == name@,
                forall|k: int| 0 <= k < i ==> (#[trigger] self.users@[k]).name@ != name@,
            decreases self.users@.len() - i,
        {
            if self.users[i].name.eq(&wanted) {
                proof {
                    assert(0 <= i < self.users@.len() && self.users@[i as int].name@ == name@);
                }
                return Some(self.users[i].pass.clone());
            }
            i += 1;
        }
        None
    }

    /// How many photos this owner uploaded in the closed interval
    /// `[start, end]`.
    pub fn get_photo_infos_count(&self, owner_id: Id, start: u64, end: u64) -> (r: usize)
        ensures
            r == count_photos_between(self.photos@, owner_id, start, end),
    {
        let mut count: usize = 0;
        let mut i: usize = 0;
        while i < self.photos.len()
            invariant
                i <= self.photos@.len(),
                count == count_photos_between(
                    self.photos@.subrange(0, i as int),
                    owner_id,
                    start,
                    end,
                ),
                count <= i,
            decreases self.photos@.len() - i,
        {
            proof {
                let sub = self.photos@.subrange(0, i as int + 1);
                assert(sub.drop_last() =~= self.photos@.subrange(0, i as int));
                assert(sub.last() == self.photos@[i as int]);
            }
            if self.photos[i].owner_id == owner_id && start <= self.photos[i].upload_time
                && self.photos[i].upload_time <= end {
                count += 1;
            }
            i += 1;
        }
        proof {
            assert(self.photos@.subrange(0, self.photos@.len() as int) =~= self.photos@);
        }
        count
    }

    /// Renames a photo; naming an absent photo changes nothing.
    pub fn rename_photo(&mut self, photo_id: Id, newname: &str) -> (r: EmptyResult)
        requires
            old(self).wf(),
        ensures
            r == EmptyResult::Ok(()),
            final(self).wf(),
            !has_photo_id(old(self).photos@, photo_id) ==> *final(self) == *old(self),
            has_photo_id(old(self).photos@, photo_id) ==> {
                let i = photo_index(old(self).photos@, photo_id);
                &&& final(self).photos@.len() == old(self).photos@.len()
                &&& forall|k: int|
                    0 <= k < old(self).photos@.len() && k != i ==> final(self).photos@[k] == old(
                        self,
                    ).photos@[k]
                &&& final(self).photos@[i].id == old(self).photos@[i].id
                &&& final(self).photos@[i].owner_id == old(self).photos@[i].owner_id
                &&& final(self).photos@[i].upload_time == old(self).photos@[i].upload_time
                &&& final(self).photos@[i].image_type == old(self).photos@[i].image_type
                &&& final(self).photos@[i].width == old(self).photos@[i].width
                &&& final(self).photos@[i].height == old(self).photos@[i].height
                &&& final(self).photos@[i].name@ == newname@
            },
            final(self).members@ == old(self).members@,
            final(self).users@ == old(self).users@,
            final(self).publications@ == old(self).publications@,
            final(self).tallies@ == old(self).tallies@,
            final(self).mailbox@ == old(self).mailbox@,
            final(self).created_events@ == old(self).created_events@,
    {
        let ghost pre = self.photos@;
        let mut i: usize = 0;
        while i < self.photos.len()
            invariant
                *self == *old(self),
                old(self).wf(),
                pre == self.photos@,
                i <= self.photos@.len(),
                forall|k: int| 0 <= k < i ==> (#[trigger] self.photos@[k]).id != photo_id,
            decreases self.photos@.len() - i,
        {
            if self.photos[i].id == photo_id {
                let row = self.photos[i].clone();
                self.photos.set(i, PhotoRecord { name: newname.to_owned(), ..row });
                proof {
                    let c = photo_index(pre, photo_id);
                    assert(pre[i as int].id == photo_id);
                    assert(0 <= c < pre.len() && pre[c].id == photo_id);
                    if c != i {
                        assert(false);
                    }
                }
                return Ok(());
            }
            i += 1;
        }
        Ok(())
    }

    /// The photos of this owner uploaded in the closed interval
    /// `[start, end]`, in storage order.
    fn collect_photos_between(&self, owner_id: Id, start: u64, end: u64) -> (r: Vec<PhotoRecord>)
        ensures
            r@ == photos_between_seq(self.photos@, owner_id, start, end),
    {
        let mut out: Vec<PhotoRecord> = Vec::new();
        let mut i: usize = 0;
        while i < self.photos.len()
            invariant
                i <= self.photos@.len(),
                out@ == photos_between_seq(self.photos@.subrange(0, i as int), owner_id, start, end),
            decreases self.photos@.len() - i,
        {
            proof {
                let sub = self.photos@.subrange(0, i as int + 1);
                assert(sub.drop_last() =~= self.photos@.subrange(0, i as int));
                assert(sub.last() == self.photos@[i as int]);
            }
            if self.photos[i].owner_id == owner_id && start <= self.photos[i].upload_time
                && self.photos[i].upload_time <= end {
                out.push(self.photos[i].clone());
            }
            i += 1;
        }
        proof {
            assert(self.photos@.subrange(0, self.photos@.len() as int) =~= self.photos@);
        }
        out
    }

    /// One page of this owner's gallery over the closed interval
    /// `[start, end]`: the matching photos, newest first, skipping
    /// `offset` of them and returning at most `count`.
    pub fn get_photo_infos(
        &self,
        owner_id: Id,
        start: u64,
        end: u64,
        offset: usize,
        count: usize,
    ) -> (r: Vec<PhotoRecord>)
        ensures
            gallery_page_of(
                r@,
                photos_between_seq(self.photos@, owner_id, start, end),
                offset as nat,
                count as nat,
            ),
    {
        let qual = self.collect_photos_between(owner_id, start, end);
        let ghost qseq = qual@;
        let sorted = sort_photos_newest_first(qual);
        let n = sorted.len();
        let lo = if offset > n {
            n
        } else {
            offset
        };
        let hi = if count > n - lo {
            n
        } else {
            lo + count
        };
        let mut page: Vec<PhotoRecord> = Vec::new();
        let mut i: usize = lo;
        while i < hi
            invariant
                lo <= i <= hi <= sorted@.len(),
                page@ == sorted@.subrange(lo as int, i as int),
            decreases hi - i,
        {
            page.push(sorted[i].clone());
            proof {
                assert(page@ =~= sorted@.subrange(lo as int, i as int + 1));
            }
            i += 1;
        }
        proof {
            assert(page@ =~= sorted@.subrange(lo as int, hi as int));
            assert(newest_first(sorted@) && sorted@.to_multiset() == qseq.to_multiset() && page@
                == sorted@.subrange(lo as int, hi as int));
            assert(gallery_page_of(
                page@,
                photos_between_seq(self.photos@, owner_id, start, end),
                offset as nat,
                count as nat,
            ));
        }
        page
    }

    /// The ids of the photos either side of one photo in an owner's
    /// gallery, by upload time: the newest older photo and the oldest
    /// newer one. An unknown photo has no neighbours. Among photos
    /// sharing an upload time, which id comes back is the storage
    /// layer's choice.
    pub fn get_photo_neighbours_in_gallery(&self, owner_id: Id, photo_id: Id) -> (r: (
        Option<Id>,
        Option<Id>,
    ))
        requires
            self.wf(),
        ensures
            !has_photo_id(self.photos@, photo_id) ==> r == (Option::<Id>::None, Option::<Id>::None),
            has_photo_id(self.photos@, photo_id) ==> {
                let t = photo_by_id(self.photos@, photo_id).upload_time;
                &&& (r.0 is Some <==> has_earlier_photo(self.photos@, owner_id, t))
                &&& (r.0 matches Some(id) ==> is_prev_in_gallery(self.photos@, owner_id, t, id))
                &&& (r.1 is Some <==> has_later_photo(self.photos@, owner_id, t))
                &&& (r.1 matches Some(id) ==> is_next_in_gallery(self.photos@, owner_id, t, id))
            },
    {
        let mut i: usize = 0;
        while i < self.photos.len()
            invariant
                self.wf(),
                i <= self.photos@.len(),
                forall|k: int| 0 <= k < i ==> (#[trigger] self.photos@[k]).id != photo_id,
            decreases self.photos@.len() - i,
        {
            if self.photos[i].id == photo_id {
                let t = self.photos[i].upload_time;
                proof {
                    let c = choose|k: int|
                        0 <= k < self.photos@.len() && self.photos@[k].id == photo_id;
                    assert(self.photos@[i as int].id == photo_id);
                    assert(0 <= c < self.photos@.len() && self.photos@[c].id == photo_id);
                    if c != i as int {
                        assert(false);
                    }
                }
                let prev = self.get_neighbour_in_gallery(owner_id, t, false);
                let next = self.get_neighbour_in_gallery(owner_id, t, true);
                return (prev, next);
            }
            i += 1;
        }
        (None, None)
    }

    /// One neighbour of the upload time `t` in an owner's gallery: the
    /// newest photo strictly before it, or the oldest strictly after it.
    fn get_neighbour_in_gallery(&self, owner_id: Id, t: u64, is_next: bool) -> (r: Option<Id>)
        ensures
            !is_next ==> (r is Some <==> has_earlier_photo(self.photos@, owner_id, t)),
            !is_next ==> (r matches Some(id) ==> is_prev_in_gallery(self.photos@, owner_id, t, id)),
            is_next ==> (r is Some <==> has_later_photo(self.photos@, owner_id, t)),
            is_next ==> (r matches Some(id) ==> is_next_in_gallery(self.photos@, owner_id, t, id)),
    {
        let mut best: Option<(Id, u64)> = None;
        let mut i: usize = 0;
        while i < self.photos.len()
            invariant
                i <= self.photos@.len(),
                best is None ==> forall|k: int|
                    0 <= k < i ==> !((#[trigger] self.photos@[k]).owner_id == owner_id && (if is_next {
                        self.photos@[k].upload_time > t
                    } else {
                        self.photos@[k].upload_time < t
                    })),
                best matches Some(p) ==> exists|j: int|
                    0 <= j < i && (#[trigger] self.photos@[j]).id == p.0
                        && self.photos@[j].owner_id == owner_id && self.photos@[j].upload_time
                        == p.1 && (if is_next {
                        p.1 > t
                    } else {
                        p.1 < t
                    }),
                best matches Some(p) ==> forall|k: int|
                    0 <= k < i && (#[trigger] self.photos@[k]).owner_id == owner_id && (if is_next {
                        self.photos@[k].upload_time > t
                    } else {
                        self.photos@[k].upload_time < t
                    }) ==> (if is_next {
                        self.photos@[k].upload_time >= p.1
                    } else {
                        self.photos@[k].upload_time <= p.1
                    }),
            decreases self.photos@.len() - i,
        {
            let qualifies = self.photos[i].owner_id == owner_id && (if is_next {
                self.photos[i].upload_time > t
            } else {
                self.photos[i].upload_time < t
            });
            if qualifies {
                let improves = match best {
                    None => true,
                    Some((_, bt)) => if is_next {
                        self.photos[i].upload_time < bt
                    } else {
                        self.photos[i].upload_time > bt
                    },
                };
                if improves {
                    best = Some((self.photos[i].id, self.photos[i].upload_time));
                }
            }
            i += 1;
        }
        match best {
            Some((id, bt)) => {
                proof {
                    let j = choose|j: int|
                        0 <= j < self.photos@.len() && (#[trigger] self.photos@[j]).id == id
                            && self.photos@[j].owner_id == owner_id && self.photos@[j].upload_time
                            == bt && (if is_next {
                            bt > t
                        } else {
                            bt < t
                        });
                    if is_next {
                        assert(is_next_in_gallery(self.photos@, owner_id, t, id)) by {
                            assert(self.photos@[j].id == id && self.photos@[j].owner_id == owner_id
                                && self.photos@[j].upload_time > t);
                        }
                    } else {
                        assert(is_prev_in_gallery(self.photos@, owner_id, t, id)) by {
                            assert(self.photos@[j].id == id && self.photos@[j].owner_id == owner_id
                                && self.photos@[j].upload_time < t);
                        }
                    }
                }
                Some(id)
            },
            None => None,
        }
    }

    /// Whether a publication row exists under this instance for this user.
    fn published_by(&self, scheduled: Id, user: Id) -> (r: bool)
        ensures
            r == has_pub_row(self.publications@, scheduled, user),
    {
        let mut i: usize = 0;
        while i < self.publications.len()
            invariant
                i <= self.publications@.len(),
                forall|k: int|
                    0 <= k < i ==> !((#[trigger] self.publications@[k]).scheduled_id == scheduled
                        && self.publications@[k].user_id == user),
            decreases self.publications@.len() - i,
        {
            if self.publications[i].scheduled_id == scheduled && self.publications[i].user_id
                == user {
                return true;
            }
            i += 1;
        }
        false
    }
}

/// The publication operations the engine relies on; the store implements
/// them over its publication rows.
pub trait DbPublication: Sized {
    /// The publication rows behind this handle.
    spec fn pub_rows(&self) -> Seq<PubRow>;

    /// The membership rows behind this handle.
    spec fn member_rows(&self) -> Seq<MemberRow>;

    /// The handle's well-formedness, which every operation preserves.
    spec fn pubs_wf(&self) -> bool;

    /// Nothing outside the publication rows differs between the two
    /// states.
    spec fn pubs_frame(&self, other: &Self) -> bool;

    /// Records the user's photo for this instance and group. A
    /// resubmission replaces the photo and nothing else.
    fn public_photo(&mut self, scheduled: Id, group: Id, user: Id, photo: Id, visible: bool) -> (r:
        EmptyResult)
        requires
            old(self).pubs_wf(),
        ensures
            r == EmptyResult::Ok(()),
            final(self).pubs_wf(),
            final(self).pub_rows() == spec_public_photo(
                old(self).pub_rows(),
                scheduled,
                group,
                user,
                photo,
                visible,
            ),
            old(self).pubs_frame(final(self)),
    ;

    /// Flips every publication of this instance and group to visible.
    fn make_publication_visible(&mut self, scheduled: Id, group: Id) -> (r: EmptyResult)
        requires
            old(self).pubs_wf(),
        ensures
            r == EmptyResult::Ok(()),
            final(self).pubs_wf(),
            final(self).pub_rows() == old(self).pub_rows().map_values(
                |row: PubRow| row_made_visible(row, scheduled, group),
            ),
            old(self).pubs_frame(final(self)),
    ;

    /// How many publications this instance has for the group.
    fn get_published_photo_count(&self, scheduled: Id, group: Id) -> (r: usize)
        ensures
            r == published_count(self.pub_rows(), scheduled, group),
    ;

    /// The group members that have not published under this instance.
    fn get_unpublished_users(&self, scheduled: Id, group: Id) -> (r: Vec<User>)
        ensures
            r@ == unpublished_of(
                members_of(self.member_rows(), group),
                self.pub_rows(),
                scheduled,
            ),
    ;

    /// Whether this group member has yet to publish under this instance
    /// and group.
    fn is_unpublished_user(&self, scheduled: Id, group: Id, user: Id) -> (r: bool)
        ensures
            r == !has_group_pub(self.pub_rows(), scheduled, group, user),
    ;
}

impl DbPublication for Store {
    open spec fn pub_rows(&self) -> Seq<PubRow> {
        self.publications@
    }

    open spec fn member_rows(&self) -> Seq<MemberRow> {
        self.members@
    }

    open spec fn pubs_wf(&self) -> bool {
        self.wf()
    }

    open spec fn pubs_frame(&self, other: &Self) -> bool {
        &&& other.members@ == self.members@
        &&& other.users@ == self.users@
        &&& other.photos@ == self.photos@
        &&& other.tallies@ == self.tallies@
        &&& other.mailbox@ == self.mailbox@
        &&& other.created_events@ == self.created_events@
    }

    fn public_photo(&mut self, scheduled: Id, group: Id, user: Id, photo: Id, visible: bool) -> (r:
        EmptyResult) {
        let ghost pre = self.publications@;
        let mut i: usize = 0;
        while i < self.publications.len()
            invariant
                *self == *old(self),
                old(self).wf(),
                pre == self.publications@,
                i <= self.publications@.len(),
                forall|k: int|
                    0 <= k < i ==> !((#[trigger] self.publications@[k]).scheduled_id == scheduled
                        && self.publications@[k].user_id == user),
            decreases self.publications@.len() - i,
        {
            if self.publications[i].scheduled_id == scheduled && self.publications[i].user_id
                == user {
                let row = self.publications[i];
                self.publications.set(i, PubRow { photo_id: photo, ..row });
                proof {
                    let j = pub_row_index(pre, scheduled, user);
                    assert(pre[i as int].scheduled_id == scheduled && pre[i as int].user_id
                        == user);
                    assert(0 <= j < pre.len() && pre[j].scheduled_id == scheduled && pre[j].user_id
                        == user);
                    if j != i {
                        assert(false);
                    }
                }
                return Ok(());
            }
            i += 1;
        }
        self.publications.push(
            PubRow { scheduled_id: scheduled, group_id: group, user_id: user, photo_id: photo, visible },
        );
        Ok(())
    }

    fn make_publication_visible(&mut self, scheduled: Id, group: Id) -> (r: EmptyResult) {
        let mut i: usize = 0;
        while i < self.publications.len()
            invariant
                old(self).wf(),
                i <= self.publications@.len(),
                self.publications@.len() == old(self).publications@.len(),
                forall|k: int|
                    0 <= k < i ==> self.publications@[k] == row_made_visible(
                        #[trigger] old(self).publications@[k],
                        scheduled,
                        group,
                    ),
                forall|k: int|
                    i <= k < self.publications@.len() ==> self.publications@[k] == old(
                        self,
                    ).publications@[k],
                self.members@ == old(self).members@,
                self.users@ == old(self).users@,
                self.photos@ == old(self).photos@,
                self.tallies@ == old(self).tallies@,
                self.mailbox@ == old(self).mailbox@,
                self.created_events@ == old(self).created_events@,
            decreases self.publications@.len() - i,
        {
            if self.publications[i].scheduled_id == scheduled && self.publications[i].group_id
                == group {
                let row = self.publications[i];
                self.publications.set(i, PubRow { visible: true, ..row });
            }
            i += 1;
        }
        proof {
            assert(self.publications@ =~= old(self).publications@.map_values(
                |row: PubRow| row_made_visible(row, scheduled, group),
            ));
            assert(final(self).wf()) by {
                assert forall|a: int, b: int|
                    0 <= a < b < self.publications@.len() implies !(
                (#[trigger] self.publications@[a]).scheduled_id
                        == (#[trigger] self.publications@[b]).scheduled_id
                        && self.publications@[a].user_id == self.publications@[b].user_id) by {
                    assert(!(old(self).publications@[a].scheduled_id == old(
                        self,
                    ).publications@[b].scheduled_id && old(self).publications@[a].user_id == old(
                        self,
                    ).publications@[b].user_id));
                }
            }
        }
        Ok(())
    }

    fn get_published_photo_count(&self, scheduled: Id, group: Id) -> (r: usize) {
        let mut count: usize = 0;
        let mut i: usize = 0;
        while i < self.publications.len()
            invariant
                i <= self.publications@.len(),
                count == published_count(
                    self.publications@.subrange(0, i as int),
                    scheduled,
                    group,
                ),
                count <= i,
            decreases self.publications@.len() - i,
        {
            proof {
                let sub = self.publications@.subrange(0, i as int + 1);
                assert(sub.drop_last() =~= self.publications@.subrange(0, i as int));
                assert(sub.last() == self.publications@[i as int]);
            }
            if self.publications[i].scheduled_id == scheduled && self.publications[i].group_id
                == group {
                count += 1;
            }
            i += 1;
        }
        proof {
            assert(self.publications@.subrange(0, self.publications@.len() as int)
                =~= self.publications@);
        }
        count
    }

    fn get_unpublished_users(&self, scheduled: Id, group: Id) -> (r: Vec<User>) {
        let ms = self.get_members(group);
        let mut out: Vec<User> = Vec::new();
        let mut i: usize = 0;
        while i < ms.len()
            invariant
                i <= ms@.len(),
                ms@ == members_of(self.members@, group),
                out@ == unpublished_of(ms@.subrange(0, i as int), self.publications@, scheduled),
            decreases ms@.len() - i,
        {
            proof {
                let sub = ms@.subrange(0, i as int + 1);
                assert(sub.drop_last() =~= ms@.subrange(0, i as int));
                assert(sub.last() == ms@[i as int]);
            }
            if !self.published_by(scheduled, ms[i].id) {
                out.push(ms[i].clone());
            }
            i += 1;
        }
        proof {
            assert(ms@.subrange(0, ms@.len() as int) =~= ms@);
        }
        out
    }

    fn is_unpublished_user(&self, scheduled: Id, group: Id, user: Id) -> (r: bool) {
        let mut i: usize = 0;
        while i < self.publications.len()
            invariant
                i <= self.publications@.len(),
                forall|k: int|
                    0 <= k < i ==> !((#[trigger] self.publications@[k]).scheduled_id == scheduled
                        && self.publications@[k].group_id == group && self.publications@[k].user_id
                        == user),
            decreases self.publications@.len() - i,
        {
            if self.publications[i].scheduled_id == scheduled && self.publications[i].group_id
                == group && self.publications[i].user_id == user {
                return false;
            }
            i += 1;
        }
        true
    }

}

impl Store {
    /// Makes every current member of the group eligible to vote on this
    /// instance, with a fresh, empty ballot list.
    pub fn add_rights_of_voting_for_group(&mut self, scheduled: Id, group: Id) -> (r: EmptyResult)
        requires
            old(self).wf(),
        ensures
            r == EmptyResult::Ok(()),
            final(self).wf(),
            has_tally(final(self).tallies@, scheduled),
            ({
                let t = final(self).tallies@[tally_index(final(self).tallies@, scheduled)];
                &&& t.scheduled_id == scheduled
                &&& t.votes.eligible@ == ids_of(members_of(old(self).members@, group))
                &&& t.votes.ballots@ == Seq::<crate::tally::Ballot>::empty()
            }),
            forall|sch: Id|
                sch != scheduled ==> #[trigger] has_tally(final(self).tallies@, sch) == has_tally(
                    old(self).tallies@,
                    sch,
                ),
            forall|sch: Id|
                sch != scheduled && has_tally(old(self).tallies@, sch)
                    ==> final(self).tallies@[#[trigger] tally_index(final(self).tallies@, sch)]
                    == old(self).tallies@[tally_index(old(self).tallies@, sch)],
            final(self).members@ == old(self).members@,
            final(self).users@ == old(self).users@,
            final(self).photos@ == old(self).photos@,
            final(self).publications@ == old(self).publications@,
            final(self).mailbox@ == old(self).mailbox@,
            final(self).created_events@ == old(self).created_events@,
    {
        proof {
            lemma_members_distinct(self.members@, group);
        }
        let ms = self.get_members(group);
        let mut eligible: Vec<Id> = Vec::new();
        let mut i: usize = 0;
        while i < ms.len()
            invariant
                i <= ms@.len(),
                eligible@ =~= ids_of(ms@.subrange(0, i as int)),
            decreases ms@.len() - i,
        {
            eligible.push(ms[i].id);
            proof {
                assert(eligible@ =~= ids_of(ms@.subrange(0, i as int + 1)));
            }
            i += 1;
        }
        proof {
            assert(ms@.subrange(0, ms@.len() as int) =~= ms@);
            assert(eligible@ =~= ids_of(members_of(self.members@, group)));
        }
        let votes = Votes::new(eligible);
        let row = TallyRow { scheduled_id: scheduled, votes };
        let ghost pre = self.tallies@;
        let mut j: usize = 0;
        while j < self.tallies.len()
            invariant
                *self == *old(self),
                old(self).wf(),
                pre == self.tallies@,
                row.scheduled_id == scheduled,
                row.votes.wf(),
                row.votes.eligible@ == ids_of(members_of(old(self).members@, group)),
                row.votes.ballots@ == Seq::<crate::tally::Ballot>::empty(),
                j <= self.tallies@.len(),
                forall|k: int| 0 <= k < j ==> (#[trigger] self.tallies@[k]).scheduled_id != scheduled,
            decreases self.tallies@.len() - j,
        {
            if self.tallies[j].scheduled_id == scheduled {
                let _ = self.tallies.remove(j);
                self.tallies.insert(j, TallyRow { scheduled_id: scheduled, votes: row.votes });
                proof {
                    assert(final(self).tallies@ =~= pre.update(
                        j as int,
                        final(self).tallies@[j as int],
                    ));
                    lemma_unique_tally_replace(pre, final(self).tallies@, j as int, scheduled);
                }
                return Ok(());
            }
            j += 1;
        }
        self.tallies.push(row);
        proof {
            lemma_unique_tally_push(pre, final(self).tallies@, scheduled);
        }
        Ok(())
    }

    /// The tally of this instance, if voting rights were ever granted.
    pub fn get_votes(&self, scheduled: Id) -> (r: Option<&Votes>)
        requires
            self.wf(),
        ensures
            r is Some <==> has_tally(self.tallies@, scheduled),
            r matches Some(v) ==> *v == self.tallies@[tally_index(self.tallies@, scheduled)].votes,
            r matches Some(v) ==> self.tallies@[tally_index(self.tallies@, scheduled)].scheduled_id
                == scheduled,
    {
        let mut i: usize = 0;
        while i < self.tallies.len()
            invariant
                self.wf(),
                i <= self.tallies@.len(),
                forall|k: int| 0 <= k < i ==> (#[trigger] self.tallies@[k]).scheduled_id != scheduled,
            decreases self.tallies@.len() - i,
        {
            if self.tallies[i].scheduled_id == scheduled {
                proof {
                    let c = tally_index(self.tallies@, scheduled);
                    assert(self.tallies@[i as int].scheduled_id == scheduled);
                    assert(0 <= c < self.tallies@.len() && self.tallies@[c].scheduled_id
                        == scheduled);
                    if c != i as int {
                        assert(false);
                    }
                }
                return Some(&self.tallies[i].votes);
            }
            i += 1;
        }
        None
    }

    /// Whether this user still needs to vote on this instance: eligible
    /// and without a ballot. Without a tally nobody needs to vote.
    pub fn is_need_user_vote(&self, scheduled: Id, user: Id) -> (r: bool)
        requires
            self.wf(),
        ensures
            r == (has_tally(self.tallies@, scheduled) && self.tallies@[tally_index(
                self.tallies@,
                scheduled,
            )].votes.spec_needs_vote(user)),
    {
        match self.get_votes(scheduled) {
            Some(votes) => votes.needs_vote(user),
            None => false,
        }
    }

    /// Records (or overwrites) the user's ballot on this instance. Without
    /// a tally nothing changes.
    pub fn set_vote(&mut self, scheduled: Id, user: Id, vote: bool) -> (r: EmptyResult)
        requires
            old(self).wf(),
        ensures
            r == EmptyResult::Ok(()),
            final(self).wf(),
            !has_tally(old(self).tallies@, scheduled) ==> *final(self) == *old(self),
            has_tally(old(self).tallies@, scheduled) ==> {
                let i = tally_index(old(self).tallies@, scheduled);
                let t = old(self).tallies@[i];
                &&& final(self).tallies@.len() == old(self).tallies@.len()
                &&& forall|k: int|
                    0 <= k < old(self).tallies@.len() && k != i ==> final(self).tallies@[k] == old(
                        self,
                    ).tallies@[k]
                &&& final(self).tallies@[i].scheduled_id == scheduled
                &&& final(self).tallies@[i].votes.eligible@ == t.votes.eligible@
                &&& final(self).tallies@[i].votes.ballots@ == crate::tally::spec_record(
                    t.votes.eligible@,
                    t.votes.ballots@,
                    user,
                    vote,
                )
            },
            final(self).members@ == old(self).members@,
            final(self).users@ == old(self).users@,
            final(self).photos@ == old(self).photos@,
            final(self).publications@ == old(self).publications@,
            final(self).mailbox@ == old(self).mailbox@,
            final(self).created_events@ == old(self).created_events@,
    {
        let ghost pre = self.tallies@;
        let mut i: usize = 0;
        while i < self.tallies.len()
            invariant
                *self == *old(self),
                old(self).wf(),
                pre == self.tallies@,
                i <= self.tallies@.len(),
                forall|k: int| 0 <= k < i ==> (#[trigger] self.tallies@[k]).scheduled_id != scheduled,
            decreases self.tallies@.len() - i,
        {
            if self.tallies[i].scheduled_id == scheduled {
                proof {
                    let c = tally_index(pre, scheduled);
                    assert(pre[i as int].scheduled_id == scheduled);
                    assert(0 <= c < pre.len() && pre[c].scheduled_id == scheduled);
                    if c != i {
                        assert(false);
                    }
                }
                let mut row = self.tallies.remove(i);
                row.votes.record_vote(user, vote);
                self.tallies.insert(i, row);
                proof {
                    assert(final(self).tallies@.len() == pre.len());
                    assert forall|k: int|
                        0 <= k < pre.len() && k != i as int implies final(self).tallies@[k]
                        == pre[k] by {
                        if k < i as int {
                            assert(final(self).tallies@[k] == pre[k]);
                        } else {
                            assert(final(self).tallies@[k] == pre[k]);
                        }
                    }
                }
                return Ok(());
            }
            i += 1;
        }
        Ok(())
    }

    /// Delivers an internal notification to the user's mailbox.
    pub fn send_mail_to(&mut self, user_id: Id, sender: &str, subject: &str, body: &str) -> (r:
        EmptyResult)
        ensures
            r == EmptyResult::Ok(()),
            final(self).mailbox@.len() == old(self).mailbox@.len() + 1,
            final(self).mailbox@.subrange(0, old(self).mailbox@.len() as int) == old(self).mailbox@,
            final(self).mailbox@.last().user_id == user_id,
            final(self).mailbox@.last().sender@ == sender@,
            final(self).mailbox@.last().subject@ == subject@,
            final(self).mailbox@.last().body@ == body@,
            final(self).members@ == old(self).members@,
            final(self).users@ == old(self).users@,
            final(self).photos@ == old(self).photos@,
            final(self).publications@ == old(self).publications@,
            final(self).tallies@ == old(self).tallies@,
            final(self).created_events@ == old(self).created_events@,
            old(self).wf() ==> final(self).wf(),
    {
        self.mailbox.push(
            MailRow {
                user_id,
                sender: sender.to_owned(),
                subject: subject.to_owned(),
                body: body.to_owned(),
            },
        );
        proof {
            assert(final(self).mailbox@.subrange(0, old(self).mailbox@.len() as int) =~= old(
                self,
            ).mailbox@);
        }
        Ok(())
    }

    /// Asks the scheduler to create new scheduled instances.
    pub fn add_events(&mut self, events: Vec<FullEventInfo>) -> (r: EmptyResult)
        ensures
            r == EmptyResult::Ok(()),
            final(self).created_events@ == old(self).created_events@ + events@,
            final(self).members@ == old(self).members@,
            final(self).users@ == old(self).users@,
            final(self).photos@ == old(self).photos@,
            final(self).publications@ == old(self).publications@,
            final(self).tallies@ == old(self).tallies@,
            final(self).mailbox@ == old(self).mailbox@,
            old(self).wf() ==> final(self).wf(),
    {
        let mut incoming = events;
        self.created_events.append(&mut incoming);
        Ok(())
    }
}

/// After replacing position `i` of a uniquely keyed tally list, the list
/// keyed lookups still land where expected.
proof fn lemma_unique_tally_replace(pre: Seq<TallyRow>, post: Seq<TallyRow>, i: int, sch: Id)
    requires
        pre.len() == post.len(),
        0 <= i < pre.len(),
        forall|a: int, b: int|
            0 <= a < b < pre.len() ==> pre[a].scheduled_id != pre[b].scheduled_id,
        forall|k: int| 0 <= k < pre.len() && k != i ==> post[k] == pre[k],
        pre[i].scheduled_id == sch,
        post[i].scheduled_id == sch,
    ensures
        has_tally(post, sch),
        tally_index(post, sch) == i,
        forall|s: Id|
            s != sch ==> #[trigger] has_tally(post, s) == has_tally(pre, s),
        forall|s: Id|
            s != sch && has_tally(pre, s) ==> post[#[trigger] tally_index(post, s)]
                == pre[tally_index(pre, s)],
{
    assert(post[i].scheduled_id == sch);
    assert(has_tally(post, sch));
    let c = tally_index(post, sch);
    assert(0 <= c < post.len() && post[c].scheduled_id == sch);
    if c != i {
        assert(pre[c].scheduled_id == sch);
        assert(false);
    }
    assert forall|s: Id| s != sch implies #[trigger] has_tally(post, s) == has_tally(pre, s) by {
        if has_tally(post, s) {
            let k = tally_index(post, s);
            assert(0 <= k < post.len() && post[k].scheduled_id == s);
            assert(k != i);
            assert(pre[k].scheduled_id == s);
        }
        if has_tally(pre, s) {
            let k = choose|k: int| 0 <= k < pre.len() && (#[trigger] pre[k]).scheduled_id == s;
            assert(k != i);
            assert(post[k].scheduled_id == s);
        }
    }
    assert forall|s: Id| s != sch && has_tally(pre, s) implies post[#[trigger] tally_index(post, s)]
        == pre[tally_index(pre, s)] by {
        let a = tally_index(pre, s);
        assert(0 <= a < pre.len() && pre[a].scheduled_id == s);
        let b = tally_index(post, s);
        assert(has_tally(post, s));
        assert(0 <= b < post.len() && post[b].scheduled_id == s);
        assert(b != i);
        assert(pre[b].scheduled_id == s);
        if a != b {
            assert(false);
        }
    }
}

/// After appending a row with a fresh key to a uniquely keyed tally list,
/// keyed lookups still land where expected.
proof fn lemma_unique_tally_push(pre: Seq<TallyRow>, post: Seq<TallyRow>, sch: Id)
    requires
        post.len() == pre.len() + 1,
        forall|k: int| 0 <= k < pre.len() ==> post[k] == pre[k],
        forall|a: int, b: int|
            0 <= a < b < pre.len() ==> pre[a].scheduled_id != pre[b].scheduled_id,
        forall|k: int| 0 <= k < pre.len() ==> (#[trigger] pre[k]).scheduled_id != sch,
        post.last().scheduled_id == sch,
    ensures
        has_tally(post, sch),
        tally_index(post, sch) == pre.len(),
        forall|s: Id| s != sch ==> #[trigger] has_tally(post, s) == has_tally(pre, s),
        forall|s: Id|
            s != sch && has_tally(pre, s) ==> post[#[trigger] tally_index(post, s)]
                == pre[tally_index(pre, s)],
{
    assert(post[pre.len() as int].scheduled_id == sch);
    assert(has_tally(post, sch));
    let c = tally_index(post, sch);
    assert(0 <= c < post.len() && post[c].scheduled_id == sch);
    if c != pre.len() {
        assert(pre[c].scheduled_id == sch);
        assert(false);
    }
    assert forall|s: Id| s != sch implies #[trigger] has_tally(post, s) == has_tally(pre, s) by {
        if has_tally(post, s) {
            let k = tally_index(post, s);
            assert(0 <= k < post.len() && post[k].scheduled_id == s);
            assert(k != pre.len());
            assert(pre[k].scheduled_id == s);
        }
        if has_tally(pre, s) {
            let k = choose|k: int| 0 <= k < pre.len() && (#[trigger] pre[k]).scheduled_id == s;
            assert(post[k].scheduled_id == s);
        }
    }
    assert forall|s: Id| s != sch && has_tally(pre, s) implies post[#[trigger] tally_index(post, s)]
        == pre[tally_index(pre, s)] by {
        let a = tally_index(pre, s);
        assert(0 <= a < pre.len() && pre[a].scheduled_id == s);
        assert(has_tally(post, s));
        let b = tally_index(post, s);
        assert(0 <= b < post.len() && post[b].scheduled_id == s);
        assert(b != pre.len());
        assert(pre[b].scheduled_id == s);
        if a != b {
            assert(false);
        }
    }
}

/// Arranges photos from newest to oldest by repeatedly extracting the
/// newest remaining one; the result holds exactly the input's photos.
fn sort_photos_newest_first(input: Vec<PhotoRecord>) -> (r: Vec<PhotoRecord>)
    ensures
        newest_first(r@),
        r@.to_multiset() == input@.to_multiset(),
{
    broadcast use vstd::seq_lib::group_to_multiset_ensures;

    let mut rest = input;
    let mut out: Vec<PhotoRecord> = Vec::new();
    proof {
        assert(out@.to_multiset().add(rest@.to_multiset()) =~= input@.to_multiset());
    }
    while rest.len() > 0
        invariant
            newest_first(out@),
            forall|j: int|
                0 <= j < rest@.len() ==> (out@.len() > 0 ==> out@.last().upload_time >= (
                #[trigger] rest@[j]).upload_time),
            out@.to_multiset().add(rest@.to_multiset()) == input@.to_multiset(),
        decreases rest@.len(),
    {
        let ghost out_pre = out@;
        let ghost rest_pre = rest@;
        let mut best: usize = 0;
        let mut k: usize = 1;
        while k < rest.len()
            invariant
                0 < rest@.len(),
                best < k <= rest@.len(),
                forall|t: int|
                    0 <= t < k ==> rest@[best as int].upload_time >= (
                    #[trigger] rest@[t]).upload_time,
            decreases rest@.len() - k,
        {
            if rest[k].upload_time > rest[best].upload_time {
                best = k;
            }
            k += 1;
        }
        let newest = rest.remove(best);
        let ghost m = newest;
        out.push(newest);
        proof {
            broadcast use vstd::seq_lib::group_to_multiset_ensures;

            assert(rest@.to_multiset() =~= rest_pre.to_multiset().remove(m));
            assert(out@.to_multiset() =~= out_pre.to_multiset().insert(m));
            assert(out@.to_multiset().add(rest@.to_multiset()) =~= input@.to_multiset());
            assert(newest_first(out@)) by {
                assert forall|i: int, j: int|
                    0 <= i < j < out@.len() implies out@[i].upload_time
                    >= out@[j].upload_time by {
                    if j < out@.len() - 1 {
                        assert(out_pre[i].upload_time >= out_pre[j].upload_time);
                    } else {
                        assert(out@[j] == m);
                        if out_pre.len() > 0 {
                            assert(out_pre.last().upload_time >= rest_pre[best as int].upload_time);
                            if i < out_pre.len() - 1 {
                                assert(out_pre[i].upload_time >= out_pre.last().upload_time);
                            }
                        }
                    }
                }
            }
            assert forall|j: int|
                0 <= j < rest@.len() implies (out@.len() > 0 ==> out@.last().upload_time >= (
            #[trigger] rest@[j]).upload_time) by {
                if j < best as int {
                    assert(rest@[j] == rest_pre[j]);
                } else {
                    assert(rest@[j] == rest_pre[j + 1]);
                }
                assert(out@.last() == m);
            }
        }
    }
    proof {
        assert(rest@.to_multiset() =~= Multiset::<PhotoRecord>::empty());
        assert(out@.to_multiset() =~= input@.to_multiset());
    }
    out
}

/// Every account id is at most the maximum.
pub proof fn lemma_max_user_id_bounds(users: Seq<UserRow>)
    ensures
        forall|i: int| 0 <= i < users.len() ==> (#[trigger] users[i]).id <= max_user_id(users),
    decreases users.len(),
{
    if users.len() > 0 {
        lemma_max_user_id_bounds(users.drop_last());
        assert forall|i: int| 0 <= i < users.len() implies (#[trigger] users[i]).id <= max_user_id(
            users,
        ) by {
            if i < users.len() - 1 {
                assert(users.drop_last()[i] == users[i]);
            }
        }
    }
}

/// Every photo id is at most the maximum.
pub proof fn lemma_max_photo_id_bounds(photos: Seq<PhotoRecord>)
    ensures
        forall|i: int| 0 <= i < photos.len() ==> (#[trigger] photos[i]).id <= max_photo_id(photos),
    decreases photos.len(),
{
    if photos.len() > 0 {
        lemma_max_photo_id_bounds(photos.drop_last());
        assert forall|i: int|
            0 <= i < photos.len() implies (#[trigger] photos[i]).id <= max_photo_id(photos) by {
            if i < photos.len() - 1 {
                assert(photos.drop_last()[i] == photos[i]);
            }
        }
    }
}

/// Within one group the member ids are distinct.
pub proof fn lemma_members_distinct(rows: Seq<MemberRow>, g: Id)
    requires
        forall|i: int, j: int|
            0 <= i < j < rows.len() ==> !(rows[i].group_id == rows[j].group_id && rows[i].user.id
                == rows[j].user.id),
    ensures
        distinct_ids(ids_of(members_of(rows, g))),
    decreases rows.len(),
{
    if rows.len() > 0 {
        let dl = rows.drop_last();
        lemma_members_distinct(dl, g);
        lemma_members_of_sourced(dl, g);
        if rows.last().group_id == g {
            let prev = members_of(dl, g);
            let m = members_of(rows, g);
            assert forall|k: int| 0 <= k < prev.len() implies prev[k].id != rows.last().user.id by {
                assert(has_member_source(dl, g, prev[k]));
                let i = choose|i: int|
                    0 <= i < dl.len() && (#[trigger] dl[i]).group_id == g && dl[i].user == prev[k];
                assert(rows[i] == dl[i]);
                assert(!(rows[i].group_id == rows.last().group_id && rows[i].user.id
                    == rows.last().user.id));
            }
            assert forall|i: int, j: int| 0 <= i < j < ids_of(m).len() implies ids_of(m)[i]
                != ids_of(m)[j] by {
                assert(ids_of(m)[i] == m[i].id);
                assert(ids_of(m)[j] == m[j].id);
                if j < prev.len() {
                    assert(ids_of(prev)[i] == prev[i].id);
                    assert(ids_of(prev)[j] == prev[j].id);
                    assert(ids_of(prev)[i] != ids_of(prev)[j]);
                } else {
                    assert(m[j] == rows.last().user);
                    assert(m[i] == prev[i]);
                }
            }
        } else {
            assert(members_of(rows, g) == members_of(dl, g));
        }
    }
}

/// Some membership row of group `g` carries user `u`.
pub open spec fn has_member_source(rows: Seq<MemberRow>, g: Id, u: User) -> bool {
    exists|i: int| 0 <= i < rows.len() && (#[trigger] rows[i]).group_id == g && rows[i].user == u
}

/// Every member listed for a group comes from some membership row of that
/// group.
pub proof fn lemma_members_of_sourced(rows: Seq<MemberRow>, g: Id)
    ensures
        forall|k: int|
            0 <= k < members_of(rows, g).len() ==> has_member_source(
                rows,
                g,
                #[trigger] members_of(rows, g)[k],
            ),
    decreases rows.len(),
{
    if rows.len() > 0 {
        let dl = rows.drop_last();
        lemma_members_of_sourced(dl, g);
        assert forall|k: int| 0 <= k < members_of(rows, g).len() implies has_member_source(
            rows,
            g,
            #[trigger] members_of(rows, g)[k],
        ) by {
            if k < members_of(dl, g).len() {
                let i = choose|i: int|
                    0 <= i < dl.len() && (#[trigger] dl[i]).group_id == g && dl[i].user
                        == members_of(dl, g)[k];
                assert(rows[i] == dl[i]);
                assert(rows[i].group_id == g && rows[i].user == members_of(rows, g)[k]);
            } else {
                assert(rows.last().group_id == g);
                assert(rows[rows.len() - 1].group_id == g && rows[rows.len() - 1].user
                    == members_of(rows, g)[k]);
            }
        }
    }
}

} // verus!
