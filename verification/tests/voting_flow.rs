//! The group-voting decorator driven end to end, plus the small helpers
//! around it.

use photometer::answer::{Answer, AnswerBody, ChangeInfo};
use photometer::answer_types::{FieldErrorInfo, OkInfo};
use photometer::codec::encode_publication;
use photometer::codec::PublicationData;
use photometer::events::group_voting;
use photometer::events::{get_change_by_voting, get_event, Context, FullEventInfo, ScheduledEventInfo, UserAction};
use photometer::mailer::{make_event_action_link, u64_to_dec_string, MailContext};
use photometer::tally::Ratio;
use photometer::store::{DbUsers, Store};
use photometer::types::{CommonError, ImageType, User};

const GROUP: u64 = 7;
const VOTE_SCHEDULED: u64 = 200;

fn vote_user(id: u64, idx: usize) -> User {
    User { id, name: format!("voter{}", idx), mail: format!("voter{}@example.org", idx) }
}

/// A store with one group of `n` members and a started voting instance
/// wrapping a publication for the same group, at the given approval
/// ratio.
fn vote_setup(n: usize, num: u32, den: u32) -> (Context, Vec<User>, ScheduledEventInfo) {
    let mut store = Store::new();
    let mut users = Vec::new();
    for idx in 0..n {
        store.add_user(&format!("voter{}", idx), "secret").unwrap();
        let user = vote_user((idx + 1) as u64, idx);
        store.add_member(GROUP, &user);
        users.push(user);
    }
    let internal = FullEventInfo {
        id: 1,
        name: String::from("Autumn"),
        start_time: 500,
        end_time: 900,
        data: encode_publication(&PublicationData { group_id: GROUP }),
    };
    let descriptor = group_voting::new(GROUP, Ratio::new(num, den), &internal);
    assert_eq!(descriptor.id, 4);
    assert_eq!(descriptor.name, "Autumn");
    assert_eq!(descriptor.start_time, 500);
    assert_eq!(descriptor.end_time, 900);
    let body = ScheduledEventInfo {
        scheduled_id: VOTE_SCHEDULED,
        id: descriptor.id,
        name: descriptor.name.clone(),
        state: String::new(),
        data: descriptor.data,
    };
    let mut ctx = Context { store, outbox: Vec::new(), now: 1000 };
    let event = get_event(4).unwrap();
    assert_eq!(event.start(&mut ctx, &body), Ok(()));
    (ctx, users, body)
}

fn ballot(text: &str) -> UserAction {
    UserAction::Ballot { vote: String::from(text) }
}

#[test]
fn start_grants_rights_to_every_member() {
    let (ctx, _users, _body) = vote_setup(10, 6, 10);
    let votes = ctx.store.get_votes(VOTE_SCHEDULED).unwrap();
    assert_eq!(votes.all_count(), 10);
    assert_eq!(votes.yes_count(), 0);
    assert_eq!(votes.no_count(), 0);
}

#[test]
fn six_of_ten_at_sixty_percent_applies_the_wrapped_event() {
    let (mut ctx, users, body) = vote_setup(10, 6, 10);
    let event = get_event(4).unwrap();
    for idx in 0..6 {
        let answer = event.user_action_post(&mut ctx, &users[idx], &ballot("yes"), &body).unwrap();
        assert_eq!(answer, Answer::Good(AnswerBody::Status(OkInfo::new("accepted"))));
    }
    assert_eq!(event.finish(&mut ctx, &body), Ok(()));
    // The wrapped publication's finish ran: nobody had published, so it
    // scheduled a late publication for the whole group.
    assert_eq!(ctx.store.created_events.len(), 1);
    assert_eq!(ctx.store.created_events[0].id, 3);
}

#[test]
fn five_of_ten_at_sixty_percent_applies_nothing() {
    let (mut ctx, users, body) = vote_setup(10, 6, 10);
    let event = get_event(4).unwrap();
    for idx in 0..5 {
        event.user_action_post(&mut ctx, &users[idx], &ballot("yes"), &body).unwrap();
    }
    assert_eq!(event.finish(&mut ctx, &body), Ok(()));
    assert_eq!(ctx.store.created_events.len(), 0);
    assert_eq!(ctx.store.publications.len(), 0);
}

#[test]
fn a_no_vote_is_anything_but_yes() {
    let (mut ctx, users, body) = vote_setup(3, 1, 2);
    let event = get_event(4).unwrap();
    event.user_action_post(&mut ctx, &users[0], &ballot("no"), &body).unwrap();
    event.user_action_post(&mut ctx, &users[1], &ballot("maybe"), &body).unwrap();
    event.user_action_post(&mut ctx, &users[2], &ballot("yes"), &body).unwrap();
    let votes = ctx.store.get_votes(VOTE_SCHEDULED).unwrap();
    assert_eq!(votes.yes_count(), 1);
    assert_eq!(votes.no_count(), 2);
}

#[test]
fn a_settled_voter_cannot_change_their_ballot() {
    let (mut ctx, users, body) = vote_setup(3, 1, 2);
    let event = get_event(4).unwrap();
    event.user_action_post(&mut ctx, &users[0], &ballot("yes"), &body).unwrap();
    // The same user posts again: rejected as a field error, tally
    // untouched.
    let answer = event.user_action_post(&mut ctx, &users[0], &ballot("no"), &body).unwrap();
    assert_eq!(
        answer,
        Answer::Bad(AnswerBody::FieldError(FieldErrorInfo::new("user", "no_need_vote")))
    );
    let votes = ctx.store.get_votes(VOTE_SCHEDULED).unwrap();
    assert_eq!(votes.yes_count(), 1);
    assert_eq!(votes.no_count(), 0);
    // An outsider is rejected the same way.
    let outsider = vote_user(99, 99);
    let answer = event.user_action_post(&mut ctx, &outsider, &ballot("yes"), &body).unwrap();
    assert_eq!(
        answer,
        Answer::Bad(AnswerBody::FieldError(FieldErrorInfo::new("user", "no_need_vote")))
    );
    assert_eq!(ctx.store.get_votes(VOTE_SCHEDULED).unwrap().yes_count(), 1);
}

#[test]
fn get_tells_a_user_whether_a_vote_is_expected() {
    let (mut ctx, users, body) = vote_setup(2, 1, 2);
    let event = get_event(4).unwrap();
    assert_eq!(
        event.user_action_get(&ctx, &users[0], &body).unwrap(),
        Answer::Good(AnswerBody::Status(OkInfo::new("need_some_voting")))
    );
    event.user_action_post(&mut ctx, &users[0], &ballot("yes"), &body).unwrap();
    assert_eq!(
        event.user_action_get(&ctx, &users[0], &body).unwrap(),
        Answer::Good(AnswerBody::Status(OkInfo::new("no_need_vote")))
    );
}

#[test]
fn voting_completes_on_full_turnout_or_certain_success() {
    let (mut ctx, users, body) = vote_setup(3, 1, 3);
    let event = get_event(4).unwrap();
    assert_eq!(event.is_complete(&ctx, &body), Ok(false));
    // Threshold is max(2, 1) = 2: two yes votes settle it early.
    event.user_action_post(&mut ctx, &users[0], &ballot("yes"), &body).unwrap();
    assert_eq!(event.is_complete(&ctx, &body), Ok(false));
    event.user_action_post(&mut ctx, &users[1], &ballot("yes"), &body).unwrap();
    assert_eq!(event.is_complete(&ctx, &body), Ok(true));
}

#[test]
fn certain_failure_does_not_end_the_window_early() {
    let (mut ctx, users, body) = vote_setup(3, 1, 1);
    let event = get_event(4).unwrap();
    // Two no votes: approval (threshold 3) is already impossible, but the
    // window still runs.
    event.user_action_post(&mut ctx, &users[0], &ballot("no"), &body).unwrap();
    event.user_action_post(&mut ctx, &users[1], &ballot("no"), &body).unwrap();
    assert_eq!(event.is_complete(&ctx, &body), Ok(false));
    // Full turnout does complete it.
    event.user_action_post(&mut ctx, &users[2], &ballot("no"), &body).unwrap();
    assert_eq!(event.is_complete(&ctx, &body), Ok(true));
}

#[test]
fn info_reports_the_wrapped_event_and_the_counts() {
    let (mut ctx, users, body) = vote_setup(4, 1, 2);
    let event = get_event(4).unwrap();
    event.user_action_post(&mut ctx, &users[0], &ballot("yes"), &body).unwrap();
    event.user_action_post(&mut ctx, &users[1], &ballot("no"), &body).unwrap();
    let answer = event.info_get(&ctx, &users[0], &body).unwrap();
    match answer {
        Answer::Good(AnswerBody::GroupVoting(info)) => {
            assert_eq!(info.all_count, 4);
            assert_eq!(info.yes, 1);
            assert_eq!(info.no, 1);
            let ChangeInfo::Publication(wrapped) = info.event_obj;
            assert_eq!(wrapped.id, 1);
            assert_eq!(wrapped.name, "Autumn");
            assert_eq!(wrapped.all_count, 4);
            assert_eq!(wrapped.published, 0);
        }
        other => panic!("unexpected answer: {:?}", other),
    }
}

#[test]
fn an_unknown_wrapped_variant_is_a_fatal_error() {
    assert_eq!(
        get_change_by_voting(3).err(),
        Some(CommonError::UnknownVariant { id: 3 })
    );
    assert!(get_change_by_voting(1).is_ok());
    // A voting payload wrapping an unregistered variant surfaces the
    // mismatch when the vote succeeds.
    let mut store = Store::new();
    let mut users = Vec::new();
    for idx in 0..2 {
        store.add_user(&format!("voter{}", idx), "secret").unwrap();
        let user = vote_user((idx + 1) as u64, idx);
        store.add_member(GROUP, &user);
        users.push(user);
    }
    let internal = FullEventInfo {
        id: 2,
        name: String::from("Mystery"),
        start_time: 0,
        end_time: 1,
        data: Vec::new(),
    };
    let descriptor = group_voting::new(GROUP, Ratio::new(1, 1), &internal);
    let body = ScheduledEventInfo {
        scheduled_id: VOTE_SCHEDULED,
        id: 4,
        name: descriptor.name.clone(),
        state: String::new(),
        data: descriptor.data,
    };
    let mut ctx = Context { store, outbox: Vec::new(), now: 1000 };
    let event = get_event(4).unwrap();
    event.start(&mut ctx, &body).unwrap();
    event.user_action_post(&mut ctx, &users[0], &ballot("yes"), &body).unwrap();
    event.user_action_post(&mut ctx, &users[1], &ballot("yes"), &body).unwrap();
    assert_eq!(event.finish(&mut ctx, &body), Err(CommonError::UnknownVariant { id: 2 }));
}

#[test]
fn decimal_rendering_and_links_are_exact() {
    assert_eq!(u64_to_dec_string(0), "0");
    assert_eq!(u64_to_dec_string(7), "7");
    assert_eq!(u64_to_dec_string(1234567890), "1234567890");
    assert_eq!(u64_to_dec_string(u64::MAX), "18446744073709551615");
    assert_eq!(make_event_action_link(42), "/event/action?id=42");
}

#[test]
fn mail_context_keeps_the_transport_settings() {
    let mc = MailContext::new("smtps://mail.example.org:465", "gallery@example.org", "mailpass", "/tmp/mail.txt");
    assert_eq!(mc.smtp_addr, "smtps://mail.example.org:465");
    assert_eq!(mc.from_addr, "gallery@example.org");
    assert_eq!(mc.tmp_mail_file, "/tmp/mail.txt");
    assert_eq!(mc.auth_info, "gallery@example.org:mailpass");
}

#[test]
fn image_type_codes_round_trip() {
    assert_eq!(ImageType::Jpeg.to_code(), "jpg");
    assert_eq!(ImageType::Png.to_code(), "png");
    assert_eq!(ImageType::from_code("jpg"), Some(ImageType::Jpeg));
    assert_eq!(ImageType::from_code("png"), Some(ImageType::Png));
    assert_eq!(ImageType::from_code("gif"), None);
}

#[test]
fn accounts_behave_like_the_storage_layer() {
    let mut store = Store::new();
    store.add_user("alice", "pw1").unwrap();
    store.add_user("bob", "pw2").unwrap();
    assert!(store.user_exists("alice"));
    assert!(!store.user_exists("carol"));
    assert_eq!(store.get_user("bob", "pw2"), Some(2));
    assert_eq!(store.get_user("bob", "wrong"), None);
    assert!(store.user_id_exists(1));
    assert!(!store.user_id_exists(3));
    assert_eq!(store.user_password("alice"), Some(String::from("pw1")));
    assert_eq!(store.user_password("carol"), None);
}
