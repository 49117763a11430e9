//! Vote tally: pure aggregation of yes/no ballots against a membership
//! count, and the quorum rule that decides approval.
//!
//! The quorum threshold is `max(2, floor(n * ratio))` for `n` eligible
//! voters; the hard floor of two forbids approval by a single voter no
//! matter the ratio.

use vstd::prelude::*;

use crate::types::Id;

verus! {

/// An approval ratio in `[0, 1]`, held exactly as a fraction.
#[derive(Clone, Copy, PartialEq, Eq, Structural, Debug)]
pub struct Ratio {
    pub num: u32,
    pub den: u32,
}

impl Ratio {
    pub open spec fn wf(self) -> bool {
        1 <= self.den && self.num <= self.den
    }

    pub fn new(num: u32, den: u32) -> (r: Ratio)
        requires
            1 <= den,
            num <= den,
        ensures
            r.num == num,
            r.den == den,
            r.wf(),
    {
        Ratio { num, den }
    }
}

/// The quorum threshold: `max(2, floor(n * num / den))`.
pub open spec fn spec_threshold(n: nat, ratio: Ratio) -> nat
    recommends
        ratio.wf(),
{
    let scaled = (n * ratio.num) as int / (ratio.den as int);
    if scaled < 2 {
        2
    } else {
        scaled as nat
    }
}

/// Holds when `yes` yes-votes out of `n` eligible voters reach the quorum.
pub open spec fn approved_at(n: nat, yes: nat, ratio: Ratio) -> bool {
    yes >= spec_threshold(n, ratio)
}

/// Approval is monotonic in the yes count: once the quorum is reached at
/// `y1` yes votes, it is still reached at any `y2 >= y1` (in particular at
/// `y1 + 1`).
pub proof fn lemma_approved_monotonic(n: nat, y1: nat, y2: nat, ratio: Ratio)
    requires
        y1 <= y2,
        approved_at(n, y1, ratio),
    ensures
        approved_at(n, y2, ratio),
{
}

/// The quorum threshold never drops below two, whatever the ratio and
/// however few voters are eligible, so at most one yes vote never
/// approves anything.
pub proof fn lemma_single_voter_never_approves(n: nat, yes: nat, ratio: Ratio)
    requires
        yes <= 1,
    ensures
        spec_threshold(n, ratio) >= 2,
        !approved_at(n, yes, ratio),
{
}

/// Computes the quorum threshold for `n` eligible voters.
pub fn quorum_threshold(n: usize, ratio: &Ratio) -> (t: usize)
    requires
        ratio.wf(),
    ensures
        t == spec_threshold(n as nat, *ratio),
{
    proof {
        assert((n as int) * (ratio.num as int) <= u128::MAX) by (nonlinear_arith)
            requires
                n <= u64::MAX,
                ratio.num <= u32::MAX,
        ;
    }
    let prod: u128 = (n as u128) * (ratio.num as u128);
    let scaled: u128 = prod / (ratio.den as u128);
    assert(scaled <= n) by (nonlinear_arith)
        requires
            prod == (n as u128) * (ratio.num as u128),
            scaled == prod / (ratio.den as u128),
            1 <= ratio.den,
            ratio.num <= ratio.den,
        ;
    if scaled < 2 {
        2
    } else {
        scaled as usize
    }
}

/// One recorded ballot.
#[derive(Clone, Copy, PartialEq, Eq, Structural, Debug)]
pub struct Ballot {
    pub user: Id,
    pub vote: bool,
}

/// Some position in `s` carries a ballot of user `u`.
pub open spec fn has_ballot(s: Seq<Ballot>, u: Id) -> bool {
    exists|j: int| 0 <= j < s.len() && s[j].user == u
}

/// The position of user `u`'s ballot in `s` (meaningful when the users of
/// `s` are distinct and `has_ballot(s, u)` holds).
pub open spec fn ballot_index(s: Seq<Ballot>, u: Id) -> int {
    choose|j: int| 0 <= j < s.len() && s[j].user == u
}

/// No user id occurs twice in `s`.
pub open spec fn distinct_ids(s: Seq<Id>) -> bool {
    forall|i: int, j: int| 0 <= i < j < s.len() ==> s[i] != s[j]
}

/// No user has two ballots in `s`.
pub open spec fn distinct_ballot_users(s: Seq<Ballot>) -> bool {
    forall|i: int, j: int| 0 <= i < j < s.len() ==> s[i].user != s[j].user
}

/// How many ballots in `s` carry the value `v`.
pub open spec fn count_votes(s: Seq<Ballot>, v: bool) -> nat
    decreases s.len(),
{
    if s.len() == 0 {
        0
    } else {
        count_votes(s.drop_last(), v) + if s.last().vote == v {
            1nat
        } else {
            0nat
        }
    }
}

/// The ballots `ballots` after user `u` casts `v` against the eligible set
/// `eligible`: an ineligible user changes nothing; a repeated vote
/// overwrites in place; a first vote is appended.
pub open spec fn spec_record(eligible: Seq<Id>, ballots: Seq<Ballot>, u: Id, v: bool) -> Seq<
    Ballot,
> {
    if !eligible.contains(u) {
        ballots
    } else if has_ballot(ballots, u) {
        ballots.update(ballot_index(ballots, u), Ballot { user: u, vote: v })
    } else {
        ballots.push(Ballot { user: u, vote: v })
    }
}

/// The tally of one voting instance: who may vote, and the ballots cast so
/// far.
pub struct Votes {
    pub eligible: Vec<Id>,
    pub ballots: Vec<Ballot>,
}

impl Votes {
    /// Every ballot belongs to exactly one eligible user.
    pub open spec fn wf(self) -> bool {
        &&& distinct_ids(self.eligible@)
        &&& distinct_ballot_users(self.ballots@)
        &&& forall|i: int|
            0 <= i < self.ballots@.len() ==> self.eligible@.contains(
                #[trigger] self.ballots@[i].user,
            )
    }

    /// A fresh tally over the given eligible voters, with no ballots cast.
    pub fn new(eligible: Vec<Id>) -> (r: Votes)
        requires
            distinct_ids(eligible@),
        ensures
            r.eligible@ == eligible@,
            r.ballots@ == Seq::<Ballot>::empty(),
            r.wf(),
    {
        let r = Votes { eligible, ballots: Vec::new() };
        assert(r.ballots@ =~= Seq::<Ballot>::empty());
        r
    }

    pub fn all_count(&self) -> (r: usize)
        ensures
            r == self.eligible@.len(),
    {
        self.eligible.len()
    }

    pub fn yes_count(&self) -> (r: usize)
        ensures
            r == count_votes(self.ballots@, true),
    {
        count_cast_votes(&self.ballots, true)
    }

    pub fn no_count(&self) -> (r: usize)
        ensures
            r == count_votes(self.ballots@, false),
    {
        count_cast_votes(&self.ballots, false)
    }

    /// True iff the user is eligible and has not yet cast a ballot.
    pub fn needs_vote(&self, user: Id) -> (r: bool)
        ensures
            r == self.spec_needs_vote(user),
    {
        if !id_slice_contains(&self.eligible, user) {
            return false;
        }
        let mut i: usize = 0;
        while i < self.ballots.len()
            invariant
                i <= self.ballots@.len(),
                forall|k: int| 0 <= k < i ==> self.ballots@[k].user != user,
            decreases self.ballots@.len() - i,
        {
            if self.ballots[i].user == user {
                return false;
            }
            i += 1;
        }
        true
    }

    pub open spec fn spec_needs_vote(self, user: Id) -> bool {
        self.eligible@.contains(user) && !has_ballot(self.ballots@, user)
    }

    /// Records the user's ballot; a second ballot from the same user
    /// overwrites the first and never duplicates it.
    pub fn record_vote(&mut self, user: Id, vote: bool)
        requires
            old(self).wf(),
        ensures
            final(self).eligible@ == old(self).eligible@,
            final(self).ballots@ == spec_record(
                old(self).eligible@,
                old(self).ballots@,
                user,
                vote,
            ),
            final(self).wf(),
    {
        let ghost pre = self.ballots@;
        if !id_slice_contains(&self.eligible, user) {
            return;
        }
        let mut i: usize = 0;
        while i < self.ballots.len()
            invariant
                *self == *old(self),
                old(self).wf(),
                pre == self.ballots@,
                i <= self.ballots@.len(),
                forall|k: int| 0 <= k < i ==> self.ballots@[k].user != user,
            decreases self.ballots@.len() - i,
        {
            if self.ballots[i].user == user {
                self.ballots.set(i, Ballot { user, vote });
                proof {
                    let j = ballot_index(pre, user);
                    assert(pre[i as int].user == user);
                    assert(0 <= j < pre.len() && pre[j].user == user);
                    if j != i {
                        assert(false);
                    }
                    lemma_record_preserves_wf(*old(self), user, vote);
                }
                return;
            }
            i += 1;
        }
        self.ballots.push(Ballot { user, vote });
        proof {
            assert(!has_ballot(pre, user));
            lemma_record_preserves_wf(*old(self), user, vote);
        }
    }

    /// True iff every eligible voter has cast a ballot.
    pub fn is_fully_voted(&self) -> (r: bool)
        ensures
            r == (self.ballots@.len() == self.eligible@.len()),
    {
        self.ballots.len() == self.eligible.len()
    }

    /// The quorum rule: approved iff the yes count reaches
    /// `max(2, floor(n * ratio))` for `n` eligible voters.
    pub fn is_approved(&self, ratio: &Ratio) -> (r: bool)
        requires
            ratio.wf(),
        ensures
            r == self.spec_is_approved(*ratio),
    {
        let threshold = quorum_threshold(self.eligible.len(), ratio);
        let yes = self.yes_count();
        threshold <= yes
    }

    pub open spec fn spec_is_approved(self, ratio: Ratio) -> bool {
        approved_at(self.eligible@.len(), count_votes(self.ballots@, true), ratio)
    }
}

/// Overwriting or adding a ballot keeps the tally well formed.
pub proof fn lemma_record_preserves_wf(t: Votes, u: Id, v: bool)
    requires
        t.wf(),
    ensures
        distinct_ballot_users(spec_record(t.eligible@, t.ballots@, u, v)),
        forall|i: int|
            0 <= i < spec_record(t.eligible@, t.ballots@, u, v).len() ==> t.eligible@.contains(
                #[trigger] spec_record(t.eligible@, t.ballots@, u, v)[i].user,
            ),
        spec_record(t.eligible@, t.ballots@, u, v).len() == if t.eligible@.contains(u)
            && !has_ballot(t.ballots@, u) {
            t.ballots@.len() + 1
        } else {
            t.ballots@.len()
        },
{
    let post = spec_record(t.eligible@, t.ballots@, u, v);
    if t.eligible@.contains(u) && has_ballot(t.ballots@, u) {
        let j = ballot_index(t.ballots@, u);
        assert(0 <= j < t.ballots@.len() && t.ballots@[j].user == u);
        assert(distinct_ballot_users(post));
    }
}

/// Recording a second ballot from the same user never grows the tally: the
/// number of ballots after two votes from one user equals the number after
/// one.
pub proof fn lemma_revote_overwrites(
    eligible: Seq<Id>,
    ballots: Seq<Ballot>,
    u: Id,
    v1: bool,
    v2: bool,
)
    requires
        distinct_ids(eligible),
        distinct_ballot_users(ballots),
        forall|i: int| 0 <= i < ballots.len() ==> eligible.contains(#[trigger] ballots[i].user),
    ensures
        spec_record(eligible, spec_record(eligible, ballots, u, v1), u, v2).len() == spec_record(
            eligible,
            ballots,
            u,
            v1,
        ).len(),
{
    let once = spec_record(eligible, ballots, u, v1);
    if eligible.contains(u) {
        if has_ballot(ballots, u) {
            let j = ballot_index(ballots, u);
            assert(0 <= j < ballots.len() && ballots[j].user == u);
            assert(once[j].user == u);
            assert(has_ballot(once, u));
        } else {
            assert(once == ballots.push(Ballot { user: u, vote: v1 }));
            assert(once[ballots.len() as int].user == u);
            assert(has_ballot(once, u));
        }
        let k = ballot_index(once, u);
        assert(0 <= k < once.len() && once[k].user == u);
    }
}

/// Counts the ballots in `v` that carry the value `wanted`.
fn count_cast_votes(v: &Vec<Ballot>, wanted: bool) -> (r: usize)
    ensures
        r == count_votes(v@, wanted),
{
    let mut i: usize = 0;
    let mut count: usize = 0;
    while i < v.len()
        invariant
            i <= v@.len(),
            count == count_votes(v@.subrange(0, i as int), wanted),
            count <= i,
        decreases v@.len() - i,
    {
        proof {
            assert(v@.subrange(0, i as int + 1).drop_last() =~= v@.subrange(0, i as int));
            assert(v@.subrange(0, i as int + 1).last() == v@[i as int]);
        }
        if v[i].vote == wanted {
            count += 1;
        }
        i += 1;
    }
    proof {
        assert(v@.subrange(0, v@.len() as int) =~= v@);
    }
    count
}

/// True iff `v` contains `x`.
pub fn id_slice_contains(v: &Vec<Id>, x: Id) -> (r: bool)
    ensures
        r == v@.contains(x),
{
    let mut i: usize = 0;
    while i < v.len()
        invariant
            i <= v@.len(),
            forall|k: int| 0 <= k < i ==> v@[k] != x,
        decreases v@.len() - i,
    {
        if v[i] == x {
            return true;
        }
        i += 1;
    }
    false
}

} // verus!
