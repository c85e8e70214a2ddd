use voting_tally::ballot::Ballot;
use voting_tally::ballot::Error;
use voting_tally::ballot::Origin;
use voting_tally::ballot::Outcome;
use voting_tally::ballot::Vote;

#[test]
fn works_only_if_root() {
    let mut b = Ballot::new(16);
    assert_eq!(b.register_voter(Origin::Signed(1), 1), Err(Error::NotAuthorized));
    assert_eq!(b.register_voter(Origin::Root, 1), Ok(()));
}

#[test]
fn cannot_register_too_many() {
    let mut b = Ballot::new(2);
    assert_eq!(b.register_voter(Origin::Root, 1), Ok(()));
    assert_eq!(b.register_voter(Origin::Root, 2), Ok(()));
    assert_eq!(b.register_voter(Origin::Root, 3), Err(Error::TooManyVoters));
}

#[test]
fn only_voters_can_vote() {
    let mut b = Ballot::new(16);
    assert_eq!(b.make_vote(Origin::Signed(1), Vote::Aye), Err(Error::NotVoter));
    assert_eq!(b.register_voter(Origin::Root, 1), Ok(()));
    assert_eq!(b.make_vote(Origin::Signed(1), Vote::Aye), Ok(()));
}

#[test]
fn can_update_vote() {
    let mut b = Ballot::new(16);
    assert_eq!(b.register_voter(Origin::Root, 1), Ok(()));
    assert_eq!(b.make_vote(Origin::Signed(1), Vote::Aye), Ok(()));
    assert_eq!(b.make_vote(Origin::Signed(1), Vote::Nay), Ok(()));
    let votes = &b.votes;
    assert_eq!(votes.len(), 1);
    assert_eq!(votes[0].vote, Vote::Nay);
    assert_eq!(votes[0].who, 1);
}

#[test]
fn cannot_close_if_no_voter() {
    let b = Ballot::new(16);
    assert_eq!(b.close_vote(Origin::Signed(1)), Err(Error::NoVoters));
}

#[test]
fn cannot_close_if_not_enough_voted() {
    let mut b = Ballot::new(16);
    assert_eq!(b.register_voter(Origin::Root, 1), Ok(()));
    assert_eq!(b.close_vote(Origin::Signed(1)), Err(Error::NotComplete));
}

#[test]
fn can_close() {
    let mut b = Ballot::new(16);
    assert_eq!(b.register_voter(Origin::Root, 1), Ok(()));
    assert_eq!(b.make_vote(Origin::Signed(1), Vote::Aye), Ok(()));
    assert_eq!(b.close_vote(Origin::Signed(1)), Ok(Some(Outcome { aye: true })));
}

#[test]
fn close_even_will_fail() {}

#[test]
fn close_with_abstinence() {
    let mut b = Ballot::new(16);
    assert_eq!(b.register_voter(Origin::Root, 1), Ok(()));
    assert_eq!(b.make_vote(Origin::Signed(1), Vote::Abstain), Ok(()));
    assert_eq!(b.close_vote(Origin::Signed(1)), Ok(None));
}

#[test]
fn close_tie_reports_no_outcome() {
    let mut b = Ballot::new(4);
    assert_eq!(b.register_voter(Origin::Root, 1), Ok(()));
    assert_eq!(b.register_voter(Origin::Root, 2), Ok(()));
    assert_eq!(b.make_vote(Origin::Signed(1), Vote::Aye), Ok(()));
    assert_eq!(b.make_vote(Origin::Signed(2), Vote::Nay), Ok(()));
    assert_eq!(b.close_vote(Origin::Signed(1)), Ok(None));
}

#[test]
fn close_reports_nay_majority() {
    let mut b = Ballot::new(4);
    assert_eq!(b.register_voter(Origin::Root, 1), Ok(()));
    assert_eq!(b.register_voter(Origin::Root, 2), Ok(()));
    assert_eq!(b.register_voter(Origin::Root, 3), Ok(()));
    assert_eq!(b.make_vote(Origin::Signed(1), Vote::Nay), Ok(()));
    assert_eq!(b.make_vote(Origin::Signed(2), Vote::Nay), Ok(()));
    assert_eq!(b.make_vote(Origin::Signed(3), Vote::Aye), Ok(()));
    assert_eq!(b.close_vote(Origin::Signed(1)), Ok(Some(Outcome { aye: false })));
}

#[test]
fn abstain_counts_for_completeness_not_majority() {
    let mut b = Ballot::new(4);
    assert_eq!(b.register_voter(Origin::Root, 1), Ok(()));
    assert_eq!(b.register_voter(Origin::Root, 2), Ok(()));
    assert_eq!(b.register_voter(Origin::Root, 3), Ok(()));
    assert_eq!(b.make_vote(Origin::Signed(1), Vote::Aye), Ok(()));
    assert_eq!(b.make_vote(Origin::Signed(2), Vote::Abstain), Ok(()));
    assert_eq!(b.close_vote(Origin::Signed(1)), Err(Error::NotComplete));
    assert_eq!(b.make_vote(Origin::Signed(3), Vote::Abstain), Ok(()));
    assert_eq!(b.close_vote(Origin::Signed(1)), Ok(Some(Outcome { aye: true })));
}

#[test]
fn reregistration_is_idempotent() {
    let mut b = Ballot::new(4);
    assert_eq!(b.register_voter(Origin::Root, 1), Ok(()));
    assert_eq!(b.register_voter(Origin::Root, 1), Ok(()));
    assert_eq!(b.voters.len(), 1);
    assert_eq!(b.voters[0], 1);
}

#[test]
fn full_registry_is_left_unchanged() {
    let mut b = Ballot::new(1);
    assert_eq!(b.register_voter(Origin::Root, 1), Ok(()));
    assert_eq!(b.register_voter(Origin::Root, 2), Err(Error::TooManyVoters));
    assert_eq!(b.voters.len(), 1);
    assert_eq!(b.voters[0], 1);
}

#[test]
fn registry_never_exceeds_capacity() {
    let mut b = Ballot::new(2);
    for voter in 1..6_u64 {
        let _ = b.register_voter(Origin::Root, voter);
        assert!(b.voters.len() <= 2);
    }
    assert_eq!(b.voters.len(), 2);
}

#[test]
fn failed_vote_leaves_tally_unchanged() {
    let mut b = Ballot::new(4);
    assert_eq!(b.register_voter(Origin::Root, 1), Ok(()));
    assert_eq!(b.make_vote(Origin::Signed(1), Vote::Aye), Ok(()));
    assert_eq!(b.make_vote(Origin::Signed(2), Vote::Nay), Err(Error::NotVoter));
    assert_eq!(b.votes.len(), 1);
    assert_eq!(b.votes[0].who, 1);
    assert_eq!(b.votes[0].vote, Vote::Aye);
}

#[test]
fn vote_needs_a_signer() {
    let mut b = Ballot::new(4);
    assert_eq!(b.register_voter(Origin::Root, 1), Ok(()));
    assert_eq!(b.make_vote(Origin::Root, Vote::Aye), Err(Error::NotAuthorized));
    assert_eq!(b.votes.len(), 0);
}
