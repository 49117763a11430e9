//! Tally arithmetic and payload codec behaviour on concrete values.

use photometer::codec::{
    decode_late, decode_publication, decode_voting, encode_late, encode_publication,
    encode_voting, GroupVotingData, LatePublicationData, PublicationData,
};
use photometer::tally::{quorum_threshold, Ratio, Votes};
use photometer::types::CommonError;

#[test]
fn threshold_has_floor_of_two() {
    // n=3, ratio=0.5 gives threshold 2, not 1.
    assert_eq!(quorum_threshold(3, &Ratio::new(1, 2)), 2);
    // The floor applies even for 0 or 1 eligible voters.
    assert_eq!(quorum_threshold(0, &Ratio::new(1, 2)), 2);
    assert_eq!(quorum_threshold(1, &Ratio::new(1, 1)), 2);
    assert_eq!(quorum_threshold(100, &Ratio::new(0, 1)), 2);
}

#[test]
fn threshold_scales_with_ratio() {
    assert_eq!(quorum_threshold(10, &Ratio::new(6, 10)), 6);
    assert_eq!(quorum_threshold(4, &Ratio::new(1, 1)), 4);
    assert_eq!(quorum_threshold(7, &Ratio::new(1, 2)), 3);
    assert_eq!(quorum_threshold(9, &Ratio::new(2, 3)), 6);
}

#[test]
fn approval_is_monotonic_in_yes_votes() {
    let ratio = Ratio::new(6, 10);
    let mut votes = Votes::new((1..=10).collect());
    for user in 1..=6 {
        votes.record_vote(user, true);
    }
    assert!(votes.is_approved(&ratio));
    // One more yes vote keeps it approved.
    votes.record_vote(7, true);
    assert!(votes.is_approved(&ratio));
}

#[test]
fn five_of_ten_yes_is_not_approved() {
    let ratio = Ratio::new(6, 10);
    let mut votes = Votes::new((1..=10).collect());
    for user in 1..=5 {
        votes.record_vote(user, true);
    }
    assert!(!votes.is_approved(&ratio));
}

#[test]
fn single_supporter_never_approves() {
    let mut votes = Votes::new(vec![1]);
    votes.record_vote(1, true);
    assert!(!votes.is_approved(&Ratio::new(1, 1)));
    assert!(votes.is_fully_voted());
}

#[test]
fn revoting_overwrites_and_never_duplicates() {
    let mut votes = Votes::new(vec![1, 2, 3]);
    votes.record_vote(1, true);
    let after_one = votes.yes_count() + votes.no_count();
    votes.record_vote(1, false);
    let after_two = votes.yes_count() + votes.no_count();
    assert_eq!(after_one, 1);
    assert_eq!(after_two, after_one);
    assert_eq!(votes.yes_count(), 0);
    assert_eq!(votes.no_count(), 1);
}

#[test]
fn needs_vote_tracks_eligibility_and_ballots() {
    let mut votes = Votes::new(vec![1, 2]);
    assert!(votes.needs_vote(1));
    assert!(!votes.needs_vote(9));
    votes.record_vote(1, true);
    assert!(!votes.needs_vote(1));
    assert!(votes.needs_vote(2));
    // An ineligible vote changes nothing.
    votes.record_vote(9, true);
    assert_eq!(votes.yes_count(), 1);
}

#[test]
fn publication_payload_round_trips() {
    let data = PublicationData { group_id: 77 };
    let blob = encode_publication(&data);
    assert_eq!(decode_publication(&blob), Ok(PublicationData { group_id: 77 }));
}

#[test]
fn late_payload_round_trips() {
    let data = LatePublicationData { group_id: 7, parent_id: 100, late_users: vec![4, 5] };
    let blob = encode_late(&data);
    let back = decode_late(&blob).unwrap();
    assert_eq!(back.group_id, 7);
    assert_eq!(back.parent_id, 100);
    assert_eq!(back.late_users, vec![4, 5]);
}

#[test]
fn voting_payload_round_trips() {
    let inner = encode_publication(&PublicationData { group_id: 7 });
    let data = GroupVotingData {
        internal_id: 1,
        group_id: 7,
        success_ratio: Ratio::new(6, 10),
        internal_data: inner.clone(),
    };
    let blob = encode_voting(&data);
    let back = decode_voting(&blob).unwrap();
    assert_eq!(back.internal_id, 1);
    assert_eq!(back.group_id, 7);
    assert_eq!(back.success_ratio, Ratio::new(6, 10));
    assert_eq!(back.internal_data, inner);
}

#[test]
fn decoding_under_the_wrong_variant_fails() {
    let pub_blob = encode_publication(&PublicationData { group_id: 7 });
    let late_blob = encode_late(&LatePublicationData {
        group_id: 7,
        parent_id: 100,
        late_users: vec![4],
    });
    let voting_blob = encode_voting(&GroupVotingData {
        internal_id: 1,
        group_id: 7,
        success_ratio: Ratio::new(1, 2),
        internal_data: pub_blob.clone(),
    });
    assert_eq!(decode_late(&pub_blob), Err(CommonError::PayloadDecode { variant: 3 }));
    assert_eq!(decode_voting(&pub_blob), Err(CommonError::PayloadDecode { variant: 4 }));
    assert_eq!(decode_publication(&late_blob), Err(CommonError::PayloadDecode { variant: 1 }));
    assert_eq!(decode_voting(&late_blob), Err(CommonError::PayloadDecode { variant: 4 }));
    assert_eq!(decode_publication(&voting_blob), Err(CommonError::PayloadDecode { variant: 1 }));
    assert_eq!(decode_late(&voting_blob), Err(CommonError::PayloadDecode { variant: 3 }));
}

#[test]
fn garbage_blobs_are_rejected() {
    let garbage = vec![9u8, 9, 9];
    assert!(decode_publication(&garbage).is_err());
    assert!(decode_late(&garbage).is_err());
    assert!(decode_voting(&garbage).is_err());
    // A truncated but correctly tagged blob is rejected too.
    let mut blob = encode_late(&LatePublicationData {
        group_id: 7,
        parent_id: 100,
        late_users: vec![4, 5],
    });
    blob.pop();
    assert!(decode_late(&blob).is_err());
}

#[test]
fn stored_ratio_outside_unit_interval_is_rejected() {
    // Build a voting blob whose stored ratio has num > den by tampering
    // with an honestly encoded one: num sits in bytes 24..32, den in
    // 32..40.
    let mut blob = encode_voting(&GroupVotingData {
        internal_id: 1,
        group_id: 7,
        success_ratio: Ratio::new(1, 2),
        internal_data: vec![],
    });
    blob[24] = 3;
    assert_eq!(decode_voting(&blob), Err(CommonError::PayloadDecode { variant: 4 }));
}
