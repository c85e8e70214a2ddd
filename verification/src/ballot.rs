//! The voter registry, the ballot tally, and the closing algorithm.
//!
//! Design choices where the behaviour is a matter of policy:
//! - Re-registering a voter who is already in the registry is idempotent
//!   success: no duplicate entry, no error.
//! - A tied close (equal Aye and Nay counts, including the all-Abstain case)
//!   succeeds and reports no outcome.
//! - A successful close does not reset the registry or the tally; starting a
//!   new round is the host's choice, made by building a fresh [`Ballot`].

use vstd::prelude::*;

verus! {

/// A voter's recorded intent.
#[derive(Clone, Copy, Debug, PartialEq, Eq, Structural)]
pub enum Vote {
    Aye,
    Nay,
    Abstain,
}

/// The caller on whose behalf an operation runs. The host maps its own
/// notion of privilege onto `Root`; every other caller is a signed voter.
#[derive(Clone, Copy, Debug, PartialEq, Eq, Structural)]
pub enum Origin {
    Root,
    Signed(u64),
}

/// Why an operation was refused. Every failure is reported before any
/// state change: a call that returns an error leaves the ballot as it was.
#[derive(Clone, Copy, Debug, PartialEq, Eq, Structural)]
pub enum Error {
    /// The caller lacks the origin the operation demands.
    NotAuthorized,
    /// Registering one more voter would exceed the configured capacity.
    TooManyVoters,
    /// A vote was cast by an identifier absent from the registry.
    NotVoter,
    /// A close was attempted with an empty registry.
    NoVoters,
    /// A close was attempted before every registered voter had voted.
    NotComplete,
}

/// One voter's current choice: at most one record per voter is ever held.
#[derive(Clone, Copy, Debug, PartialEq, Eq, Structural)]
pub struct VoteRecord {
    pub who: u64,
    pub vote: Vote,
}

/// The decisive result of a closed ballot: `aye` is true when the Ayes
/// outnumber the Nays, false when the Nays outnumber the Ayes.
#[derive(Clone, Copy, Debug, PartialEq, Eq, Structural)]
pub struct Outcome {
    pub aye: bool,
}

/// One ballot round's state: the capacity-bounded registry of eligible
/// voters and the tally of choices cast so far.
pub struct Ballot {
    /// Host-supplied capacity: the registry never grows beyond it.
    pub max_voters: usize,
    /// The registered voters, in registration order, without duplicates.
    pub voters: Vec<u64>,
    /// The cast votes, in first-cast order, at most one per voter.
    pub votes: Vec<VoteRecord>,
}

/// No voter owns two records.
pub open spec fn distinct_voters(votes: Seq<VoteRecord>) -> bool {
    forall|i: int, j: int|
        0 <= i < votes.len() && 0 <= j < votes.len() && i != j
            ==> (#[trigger] votes[i]).who != (#[trigger] votes[j]).who
}

/// Whether `v` owns a record in `votes`.
pub open spec fn has_voted(votes: Seq<VoteRecord>, v: u64) -> bool {
    exists|i: int| 0 <= i < votes.len() && (#[trigger] votes[i]).who == v
}

/// How many records carry the choice `c`.
pub open spec fn count_of(votes: Seq<VoteRecord>, c: Vote) -> nat
    decreases votes.len(),
{
    if votes.len() == 0 {
        0
    } else {
        count_of(votes.drop_last(), c) + if votes.last().vote == c {
            1nat
        } else {
            0nat
        }
    }
}

/// What a complete tally decides: `Some` for a decisive Aye or Nay
/// majority, `None` for a tie (Abstain records count toward neither side).
pub open spec fn decision(votes: Seq<VoteRecord>) -> Option<Outcome> {
    if count_of(votes, Vote::Aye) > count_of(votes, Vote::Nay) {
        Some(Outcome { aye: true })
    } else if count_of(votes, Vote::Nay) > count_of(votes, Vote::Aye) {
        Some(Outcome { aye: false })
    } else {
        None
    }
}

/// How a successful cast by `v` turns the tally `pre` into `post`: the one
/// record `v` already owns is overwritten in place, or a fresh record is
/// appended when `v` had not voted yet.
pub open spec fn vote_applied(pre: Seq<VoteRecord>, post: Seq<VoteRecord>, v: u64, c: Vote) -> bool {
    if has_voted(pre, v) {
        exists|i: int|
            0 <= i < pre.len() && (#[trigger] pre[i]).who == v && post =~= pre.update(
                i,
                VoteRecord { who: v, vote: c },
            )
    } else {
        post =~= pre.push(VoteRecord { who: v, vote: c })
    }
}

/// How a successful registration of `v` turns the registry `pre` into
/// `post`: nothing changes when `v` is already present, otherwise `v` is
/// appended.
pub open spec fn registration_applied(pre: Seq<u64>, post: Seq<u64>, v: u64) -> bool {
    if pre.contains(v) {
        post =~= pre
    } else {
        post =~= pre.push(v)
    }
}

impl Ballot {
    /// The registered voters, in registration order.
    pub open spec fn registry(self) -> Seq<u64> {
        self.voters@
    }

    /// The recorded votes, in first-cast order.
    pub open spec fn tally(self) -> Seq<VoteRecord> {
        self.votes@
    }

    /// The ballot's invariant: the registry holds no duplicates and stays
    /// within capacity, the tally holds at most one record per voter, and
    /// every record belongs to a registered voter.
    pub open spec fn well_formed(self) -> bool {
        &&& self.registry().no_duplicates()
        &&& self.registry().len() <= self.max_voters
        &&& distinct_voters(self.tally())
        &&& forall|i: int|
            0 <= i < self.tally().len() ==> self.registry().contains(
                (#[trigger] self.tally()[i]).who,
            )
    }

    /// Whether `other` is the very same ballot state.
    pub open spec fn same_state(self, other: Ballot) -> bool {
        &&& self.max_voters == other.max_voters
        &&& self.registry() =~= other.registry()
        &&& self.tally() =~= other.tally()
    }

    /// Creates an open ballot round: an empty registry of capacity
    /// `max_voters` and an empty tally.
    pub fn new(max_voters: usize) -> (b: Ballot)
        ensures
            b.well_formed(),
            b.max_voters == max_voters,
            b.registry() =~= Seq::<u64>::empty(),
            b.tally() =~= Seq::<VoteRecord>::empty(),
    {
        Ballot { max_voters, voters: Vec::new(), votes: Vec::new() }
    }

    /// Registers `voter`. Only the `Root` origin may register. Registering
    /// a present voter is idempotent success; registering a fresh voter
    /// into a full registry fails with `TooManyVoters`; otherwise the voter
    /// is appended. Failures leave the ballot untouched.
    pub fn register_voter(&mut self, origin: Origin, voter: u64) -> (r: Result<(), Error>)
        requires
            old(self).well_formed(),
        ensures
            final(self).well_formed(),
            final(self).max_voters == old(self).max_voters,
            final(self).tally() =~= old(self).tally(),
            origin != Origin::Root ==> r == Err::<(), Error>(Error::NotAuthorized)
                && final(self).same_state(*old(self)),
            origin == Origin::Root && !old(self).registry().contains(voter)
                && old(self).registry().len() == old(self).max_voters ==> r == Err::<(), Error>(
                Error::TooManyVoters,
            ) && final(self).same_state(*old(self)),
            origin == Origin::Root && (old(self).registry().contains(voter) || old(
                self,
            ).registry().len() < old(self).max_voters) ==> r == Ok::<(), Error>(())
                && registration_applied(old(self).registry(), final(self).registry(), voter),
            r == Ok::<(), Error>(()) ==> final(self).registry().contains(voter),
    {
        match origin {
            Origin::Root => {},
            _ => {
                return Err(Error::NotAuthorized);
            },
        }
        if contains_id(&self.voters, voter) {
            return Ok(());
        }
        if self.voters.len() == self.max_voters {
            return Err(Error::TooManyVoters);
        }
        let ghost prior = self.voters@;
        self.voters.push(voter);
        proof {
            assert forall|i: int, j: int|
                0 <= i < self.voters@.len() && 0 <= j < self.voters@.len() && i != j implies self.voters@[i]
                != self.voters@[j] by {
                if i < prior.len() && j < prior.len() {
                } else if j == prior.len() {
                    assert(self.voters@[i] == prior[i]);
                } else {
                    assert(self.voters@[j] == prior[j]);
                }
            }
            assert forall|i: int| 0 <= i < self.tally().len() implies self.registry().contains(
                (#[trigger] self.tally()[i]).who,
            ) by {
                let w = (self.tally()[i]).who;
                assert(prior.contains(w));
                let k = choose|k: int| 0 <= k < prior.len() && prior[k] == w;
                assert(self.voters@[k] == w);
                assert(self.registry().contains(w));
            }
            assert(self.voters@.last() == voter);
        }
        Ok(())
    }

    /// Records `vote` for the signer of `origin`. A vote needs a signer, so
    /// the `Root` origin is refused; a signer outside the registry fails
    /// with `NotVoter`. A registered signer's cast always succeeds: it
    /// overwrites the signer's earlier record in place or appends a fresh
    /// one, so the signer ends up with exactly one record, carrying `vote`.
    /// Failures leave the ballot untouched.
    pub fn make_vote(&mut self, origin: Origin, vote: Vote) -> (r: Result<(), Error>)
        requires
            old(self).well_formed(),
        ensures
            final(self).well_formed(),
            final(self).max_voters == old(self).max_voters,
            final(self).registry() =~= old(self).registry(),
            origin == Origin::Root ==> r == Err::<(), Error>(Error::NotAuthorized)
                && final(self).same_state(*old(self)),
            origin is Signed && !old(self).registry().contains(origin->Signed_0) ==> r == Err::<
                (),
                Error,
            >(Error::NotVoter) && final(self).same_state(*old(self)),
            origin is Signed && old(self).registry().contains(origin->Signed_0) ==> r == Ok::<
                (),
                Error,
            >(()) && vote_applied(old(self).tally(), final(self).tally(), origin->Signed_0, vote)
                && has_voted(final(self).tally(), origin->Signed_0),
            r == Ok::<(), Error>(()) ==> forall|i: int|
                0 <= i < final(self).tally().len() && (#[trigger] final(self).tally()[i]).who
                    == origin->Signed_0 ==> final(self).tally()[i].vote == vote,
    {
        let v = match origin {
            Origin::Signed(v) => v,
            Origin::Root => {
                return Err(Error::NotAuthorized);
            },
        };
        if !contains_id(&self.voters, v) {
            return Err(Error::NotVoter);
        }
        let ghost pre = self.votes@;
        let rec = VoteRecord { who: v, vote };
        match find_vote(&self.votes, v) {
            Some(i) => {
                self.votes[i] = rec;
                proof {
                    assert(self.votes@ =~= pre.update(i as int, rec));
                    assert(has_voted(pre, v)) by {
                        assert(pre[i as int].who == v);
                    }
                    assert(vote_applied(pre, self.votes@, v, vote)) by {
                        assert(pre[i as int].who == v && self.votes@ =~= pre.update(i as int, rec));
                    }
                    assert(has_voted(self.votes@, v)) by {
                        assert(self.votes@[i as int].who == v);
                    }
                    assert forall|a: int, b: int|
                        0 <= a < self.votes@.len() && 0 <= b < self.votes@.len() && a
                            != b implies (#[trigger] self.votes@[a]).who
                        != (#[trigger] self.votes@[b]).who by {
                        assert(self.votes@[a].who == pre[a].who);
                        assert(self.votes@[b].who == pre[b].who);
                    }
                    assert forall|k: int|
                        0 <= k < self.tally().len() implies self.registry().contains(
                        (#[trigger] self.tally()[k]).who,
                    ) by {
                        assert(self.tally()[k].who == pre[k].who);
                    }
                }
            },
            None => {
                self.votes.push(rec);
                proof {
                    assert(self.votes@ =~= pre.push(rec));
                    assert(vote_applied(pre, self.votes@, v, vote));
                    assert(has_voted(self.votes@, v)) by {
                        assert(self.votes@[pre.len() as int].who == v);
                    }
                    assert forall|a: int, b: int|
                        0 <= a < self.votes@.len() && 0 <= b < self.votes@.len() && a
                            != b implies (#[trigger] self.votes@[a]).who
                        != (#[trigger] self.votes@[b]).who by {
                        if a < pre.len() && b < pre.len() {
                        } else if b == pre.len() {
                            assert(self.votes@[a] == pre[a]);
                            assert(!has_voted(pre, v));
                            assert(pre[a].who != v);
                        } else {
                            assert(self.votes@[b] == pre[b]);
                            assert(pre[b].who != v);
                        }
                    }
                    assert forall|k: int|
                        0 <= k < self.tally().len() implies self.registry().contains(
                        (#[trigger] self.tally()[k]).who,
                    ) by {
                        if k < pre.len() {
                            assert(self.tally()[k] == pre[k]);
                        } else {
                            assert(self.tally()[k].who == v);
                        }
                    }
                }
            },
        }
        proof {
            assert(distinct_voters(self.votes@));
            assert forall|i: int|
                0 <= i < self.votes@.len() && (#[trigger] self.votes@[i]).who
                    == v implies self.votes@[i].vote == vote by {
                if has_voted(pre, v) {
                    let w = choose|w: int|
                        0 <= w < pre.len() && (#[trigger] pre[w]).who == v && self.votes@
                            =~= pre.update(w, rec);
                    assert(self.votes@[w] == rec);
                    if i != w {
                        assert(self.votes@[i].who != self.votes@[w].who);
                    }
                } else {
                    if i < pre.len() {
                        assert(self.votes@[i] == pre[i]);
                        assert(pre[i].who != v);
                    }
                    assert(self.votes@[pre.len() as int] == rec);
                }
            }
        }
        Ok(())
    }

    /// Validates the ballot and computes its outcome. Any origin may close.
    /// An empty registry fails with `NoVoters`; a tally that does not cover
    /// every registered voter fails with `NotComplete` (Abstain records
    /// count toward completeness). A complete ballot succeeds and yields
    /// [`decision`]: `Some` for a decisive majority, `None` for a tie. The
    /// ballot itself is left as it was; a new round is a fresh [`Ballot`].
    pub fn close_vote(&self, _origin: Origin) -> (r: Result<Option<Outcome>, Error>)
        requires
            self.well_formed(),
        ensures
            self.registry().len() == 0 ==> r == Err::<Option<Outcome>, Error>(Error::NoVoters),
            self.registry().len() > 0 && self.tally().len() != self.registry().len() ==> r
                == Err::<Option<Outcome>, Error>(Error::NotComplete),
            self.registry().len() > 0 && self.tally().len() == self.registry().len() ==> r
                == Ok::<Option<Outcome>, Error>(decision(self.tally())),
    {
        if self.voters.len() == 0 {
            return Err(Error::NoVoters);
        }
        if self.votes.len() != self.voters.len() {
            return Err(Error::NotComplete);
        }
        let mut aye: usize = 0;
        let mut nay: usize = 0;
        let mut k: usize = 0;
        while k < self.votes.len()
            invariant
                k <= self.votes@.len(),
                aye == count_of(self.votes@.subrange(0, k as int), Vote::Aye),
                nay == count_of(self.votes@.subrange(0, k as int), Vote::Nay),
            decreases self.votes@.len() - k,
        {
            proof {
                lemma_count_le_len(self.votes@.subrange(0, k as int), Vote::Aye);
                lemma_count_le_len(self.votes@.subrange(0, k as int), Vote::Nay);
                assert(self.votes@.subrange(0, k as int + 1).drop_last() =~= self.votes@.subrange(
                    0,
                    k as int,
                ));
                assert(self.votes@.subrange(0, k as int + 1).last() == self.votes@[k as int]);
            }
            match self.votes[k].vote {
                Vote::Aye => {
                    aye += 1;
                },
                Vote::Nay => {
                    nay += 1;
                },
                Vote::Abstain => {},
            }
            k += 1;
        }
        proof {
            assert(self.votes@.subrange(0, self.votes@.len() as int) =~= self.votes@);
        }
        if aye > nay {
            Ok(Some(Outcome { aye: true }))
        } else if nay > aye {
            Ok(Some(Outcome { aye: false }))
        } else {
            Ok(None)
        }
    }
}

/// The count of records carrying one choice never exceeds the tally's length.
proof fn lemma_count_le_len(votes: Seq<VoteRecord>, c: Vote)
    ensures
        count_of(votes, c) <= votes.len(),
    decreases votes.len(),
{
    if votes.len() > 0 {
        lemma_count_le_len(votes.drop_last(), c);
    }
}

/// The index of the record `v` owns in `votes`, if any.
fn find_vote(votes: &Vec<VoteRecord>, v: u64) -> (idx: Option<usize>)
    ensures
        match idx {
            Some(i) => i < votes@.len() && votes@[i as int].who == v,
            None => !has_voted(votes@, v),
        },
{
    let mut k: usize = 0;
    while k < votes.len()
        invariant
            k <= votes@.len(),
            forall|j: int| 0 <= j < k ==> (#[trigger] votes@[j]).who != v,
        decreases votes@.len() - k,
    {
        if votes[k].who == v {
            return Some(k);
        }
        k += 1;
    }
    None
}

/// Whether `v` occurs in `ids`.
fn contains_id(ids: &Vec<u64>, v: u64) -> (found: bool)
    ensures
        found == ids@.contains(v),
{
    let mut k: usize = 0;
    while k < ids.len()
        invariant
            k <= ids@.len(),
            forall|j: int| 0 <= j < k ==> ids@[j] != v,
        decreases ids@.len() - k,
    {
        if ids[k] == v {
            assert(ids@.contains(v)) by {
                assert(ids@[k as int] == v);
            }
            return true;
        }
        k += 1;
    }
    false
}

} // verus!
