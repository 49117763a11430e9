//! The publication lifecycle and its late-publication follow-up, driven
//! through the registry as the external scheduler would.

use photometer::answer::{Answer, AnswerBody};
use photometer::answer_types::{AccessErrorInfo, FieldErrorInfo, OkInfo, PhotoErrorInfo};
use photometer::codec::{decode_late, encode_publication, PublicationData};
use photometer::events::{get_event, Context, ScheduledEventInfo, UserAction};
use photometer::store::{DbPublication, DbUsers, Store};
use photometer::types::{CommonError, ImageType, PhotoRecord, User};

const GROUP: u64 = 7;
const SCHEDULED: u64 = 100;

fn flow_user(id: u64, idx: usize) -> User {
    User { id, name: format!("member{}", idx), mail: format!("member{}@example.org", idx) }
}

/// A store with one group of `n` members, each owning one photo; returns
/// the context, the member user values and their photo ids.
fn flow_setup(n: usize) -> (Context, Vec<User>, Vec<u64>) {
    let mut store = Store::new();
    let mut users = Vec::new();
    let mut photos = Vec::new();
    for idx in 0..n {
        store.add_user(&format!("member{}", idx), "secret").unwrap();
        let id = (idx + 1) as u64;
        let user = flow_user(id, idx);
        store.add_member(GROUP, &user);
        let photo_id = store
            .add_photo(
                id,
                &PhotoRecord {
                    id: 0,
                    owner_id: 0,
                    upload_time: 50,
                    image_type: ImageType::Jpeg,
                    width: 800,
                    height: 600,
                    name: format!("photo{}", idx),
                },
            )
            .unwrap();
        users.push(user);
        photos.push(photo_id);
    }
    (Context { store, outbox: Vec::new(), now: 1000 }, users, photos)
}

fn publication_body() -> ScheduledEventInfo {
    ScheduledEventInfo {
        scheduled_id: SCHEDULED,
        id: 1,
        name: String::from("Summer"),
        state: String::new(),
        data: encode_publication(&PublicationData { group_id: GROUP }),
    }
}

fn pick(photo_id: u64) -> UserAction {
    UserAction::ChoosePhoto { photo_id }
}

#[test]
fn start_notifies_every_member() {
    let (mut ctx, users, _photos) = flow_setup(3);
    let event = get_event(1).unwrap();
    let body = publication_body();
    assert_eq!(event.start(&mut ctx, &body), Ok(()));
    assert_eq!(ctx.outbox.len(), 3);
    assert_eq!(ctx.store.mailbox.len(), 3);
    let first = &ctx.outbox[0];
    assert_eq!(first.to_name, users[0].name);
    assert_eq!(first.to_addr, users[0].mail);
    assert_eq!(first.subject, "Publication 'Summer'");
    assert_eq!(
        first.body,
        "Hello member0, it is time to publish a photo. Choose one from your gallery at \
         /event/action?id=100."
    );
    assert_eq!(ctx.store.mailbox[2].user_id, users[2].id);
    assert_eq!(ctx.store.mailbox[2].sender, "Photometer");
}

#[test]
fn start_rejects_foreign_payload() {
    let (mut ctx, _users, _photos) = flow_setup(2);
    let event = get_event(1).unwrap();
    let mut body = publication_body();
    body.data = vec![1, 2, 3];
    assert_eq!(event.start(&mut ctx, &body), Err(CommonError::PayloadDecode { variant: 1 }));
    assert_eq!(ctx.outbox.len(), 0);
}

#[test]
fn posting_an_owned_photo_publishes_invisibly() {
    let (mut ctx, users, photos) = flow_setup(2);
    let event = get_event(1).unwrap();
    let body = publication_body();
    let answer = event.user_action_post(&mut ctx, &users[0], &pick(photos[0]), &body).unwrap();
    assert_eq!(answer, Answer::Good(AnswerBody::Status(OkInfo::new("published"))));
    assert_eq!(ctx.store.publications.len(), 1);
    assert_eq!(ctx.store.publications[0].user_id, users[0].id);
    assert_eq!(ctx.store.publications[0].photo_id, photos[0]);
    assert!(!ctx.store.publications[0].visible);
}

#[test]
fn posting_twice_overwrites_the_photo() {
    let (mut ctx, users, photos) = flow_setup(1);
    let extra = ctx
        .store
        .add_photo(
            users[0].id,
            &PhotoRecord {
                id: 0,
                owner_id: 0,
                upload_time: 60,
                image_type: ImageType::Png,
                width: 10,
                height: 10,
                name: String::from("second"),
            },
        )
        .unwrap();
    let event = get_event(1).unwrap();
    let body = publication_body();
    event.user_action_post(&mut ctx, &users[0], &pick(photos[0]), &body).unwrap();
    event.user_action_post(&mut ctx, &users[0], &pick(extra), &body).unwrap();
    assert_eq!(ctx.store.publications.len(), 1);
    assert_eq!(ctx.store.publications[0].photo_id, extra);
}

#[test]
fn posting_a_missing_photo_is_not_found() {
    let (mut ctx, users, _photos) = flow_setup(2);
    let event = get_event(1).unwrap();
    let body = publication_body();
    let answer = event.user_action_post(&mut ctx, &users[0], &pick(999), &body).unwrap();
    assert_eq!(answer, Answer::Bad(AnswerBody::PhotoError(PhotoErrorInfo::not_found())));
    assert_eq!(ctx.store.publications.len(), 0);
}

#[test]
fn posting_someone_elses_photo_is_denied() {
    let (mut ctx, users, photos) = flow_setup(2);
    let event = get_event(1).unwrap();
    let body = publication_body();
    let answer = event.user_action_post(&mut ctx, &users[0], &pick(photos[1]), &body).unwrap();
    assert_eq!(answer, Answer::Bad(AnswerBody::AccessError(AccessErrorInfo::new())));
    assert_eq!(ctx.store.publications.len(), 0);
}

#[test]
fn posting_a_ballot_to_a_publication_is_a_request_error() {
    let (mut ctx, users, _photos) = flow_setup(1);
    let event = get_event(1).unwrap();
    let body = publication_body();
    let action = UserAction::Ballot { vote: String::from("yes") };
    assert_eq!(
        event.user_action_post(&mut ctx, &users[0], &action, &body),
        Err(CommonError::RequestDecode)
    );
}

#[test]
fn get_always_points_at_the_gallery() {
    let (ctx, users, _photos) = flow_setup(1);
    let event = get_event(1).unwrap();
    let body = publication_body();
    let answer = event.user_action_get(&ctx, &users[0], &body).unwrap();
    assert_eq!(answer, Answer::Good(AnswerBody::Status(OkInfo::new("choose_from_gallery"))));
}

#[test]
fn info_reports_group_size_and_progress() {
    let (mut ctx, users, photos) = flow_setup(4);
    let event = get_event(1).unwrap();
    let body = publication_body();
    event.user_action_post(&mut ctx, &users[0], &pick(photos[0]), &body).unwrap();
    event.user_action_post(&mut ctx, &users[1], &pick(photos[1]), &body).unwrap();
    let answer = event.info_get(&ctx, &users[0], &body).unwrap();
    match answer {
        Answer::Good(AnswerBody::Publication(info)) => {
            assert_eq!(info.id, 1);
            assert_eq!(info.name, "Summer");
            assert_eq!(info.all_count, 4);
            assert_eq!(info.published, 2);
        }
        other => panic!("unexpected answer: {:?}", other),
    }
}

#[test]
fn publication_never_completes_early() {
    let (ctx, _users, _photos) = flow_setup(1);
    let event = get_event(1).unwrap();
    assert_eq!(event.is_complete(&ctx, &publication_body()), Ok(false));
}

#[test]
fn finish_with_stragglers_spawns_one_late_publication() {
    let (mut ctx, users, photos) = flow_setup(5);
    let event = get_event(1).unwrap();
    let body = publication_body();
    for idx in 0..3 {
        event.user_action_post(&mut ctx, &users[idx], &pick(photos[idx]), &body).unwrap();
    }
    assert_eq!(event.finish(&mut ctx, &body), Ok(()));
    // All three recorded publications are now visible.
    assert_eq!(ctx.store.publications.len(), 3);
    assert!(ctx.store.publications.iter().all(|row| row.visible));
    // Exactly one follow-up, covering exactly the two members who did not
    // publish.
    assert_eq!(ctx.store.created_events.len(), 1);
    let spawned = &ctx.store.created_events[0];
    assert_eq!(spawned.id, 3);
    assert_eq!(spawned.name, "Catching up Summer");
    assert_eq!(spawned.start_time, 1000);
    assert_eq!(spawned.end_time, 1000 + 31536000);
    let info = decode_late(&spawned.data).unwrap();
    assert_eq!(info.group_id, GROUP);
    assert_eq!(info.parent_id, SCHEDULED);
    assert_eq!(info.late_users, vec![users[3].id, users[4].id]);
}

#[test]
fn finish_with_everyone_published_spawns_nothing() {
    let (mut ctx, users, photos) = flow_setup(5);
    let event = get_event(1).unwrap();
    let body = publication_body();
    for idx in 0..5 {
        event.user_action_post(&mut ctx, &users[idx], &pick(photos[idx]), &body).unwrap();
    }
    assert_eq!(event.finish(&mut ctx, &body), Ok(()));
    assert_eq!(ctx.store.created_events.len(), 0);
    assert!(ctx.store.publications.iter().all(|row| row.visible));
}

#[test]
fn late_publication_runs_the_grace_period() {
    let (mut ctx, users, photos) = flow_setup(5);
    let publication = get_event(1).unwrap();
    let body = publication_body();
    for idx in 0..3 {
        publication.user_action_post(&mut ctx, &users[idx], &pick(photos[idx]), &body).unwrap();
    }
    publication.finish(&mut ctx, &body).unwrap();
    let spawned = ctx.store.created_events[0].data.clone();
    let late_body = ScheduledEventInfo {
        scheduled_id: 101,
        id: 3,
        name: String::from("Catching up Summer"),
        state: String::new(),
        data: spawned,
    };
    let late = get_event(3).unwrap();

    // Each straggler gets a personal internal notification.
    let mailbox_before = ctx.store.mailbox.len();
    assert_eq!(late.start(&mut ctx, &late_body), Ok(()));
    assert_eq!(ctx.store.mailbox.len(), mailbox_before + 2);
    let note = &ctx.store.mailbox[mailbox_before];
    assert_eq!(note.user_id, users[3].id);
    assert_eq!(note.sender, "Late publication");
    assert_eq!(note.subject, "Late publication 'Catching up Summer'");
    assert_eq!(
        note.body,
        "You did not publish a photo in time. You can still do it at /event/action?id=101."
    );

    // A straggler is told to choose; a member who already published has
    // nothing to do here.
    assert_eq!(
        late.user_action_get(&ctx, &users[3], &late_body).unwrap(),
        Answer::Good(AnswerBody::Status(OkInfo::new("choose_from_gallery")))
    );
    assert_eq!(
        late.user_action_get(&ctx, &users[0], &late_body).unwrap(),
        Answer::Good(AnswerBody::Status(OkInfo::new("nothing_to_do")))
    );

    // Only a straggler may post, and the publication lands under the
    // parent instance, immediately visible.
    assert_eq!(
        late.user_action_post(&mut ctx, &users[0], &pick(photos[0]), &late_body).unwrap(),
        Answer::Bad(AnswerBody::FieldError(FieldErrorInfo::new("user", "nothing_to_do")))
    );
    assert_eq!(
        late.user_action_post(&mut ctx, &users[3], &pick(photos[3]), &late_body).unwrap(),
        Answer::Good(AnswerBody::Status(OkInfo::new("published")))
    );
    let row = ctx
        .store
        .publications
        .iter()
        .find(|row| row.user_id == users[3].id)
        .unwrap();
    assert_eq!(row.scheduled_id, SCHEDULED);
    assert!(row.visible);

    // Complete exactly when the whole group has published under the
    // parent record.
    assert_eq!(late.is_complete(&ctx, &late_body), Ok(false));
    late.user_action_post(&mut ctx, &users[4], &pick(photos[4]), &late_body).unwrap();
    assert_eq!(late.is_complete(&ctx, &late_body), Ok(true));

    // Its finish is a no-op.
    let events_before = ctx.store.created_events.len();
    assert_eq!(late.finish(&mut ctx, &late_body), Ok(()));
    assert_eq!(ctx.store.created_events.len(), events_before);
}

fn gallery_photo(time: u64, label: &str) -> PhotoRecord {
    PhotoRecord {
        id: 0,
        owner_id: 0,
        upload_time: time,
        image_type: ImageType::Jpeg,
        width: 800,
        height: 600,
        name: String::from(label),
    }
}

#[test]
fn gallery_neighbours_follow_upload_time() {
    let mut store = Store::new();
    store.add_user("owner", "secret").unwrap();
    store.add_user("other", "secret").unwrap();
    let early = store.add_photo(1, &gallery_photo(10, "early")).unwrap();
    let middle = store.add_photo(1, &gallery_photo(20, "middle")).unwrap();
    let late = store.add_photo(1, &gallery_photo(30, "late")).unwrap();
    let foreign = store.add_photo(2, &gallery_photo(25, "foreign")).unwrap();

    assert_eq!(store.get_photo_neighbours_in_gallery(1, middle), (Some(early), Some(late)));
    assert_eq!(store.get_photo_neighbours_in_gallery(1, early), (None, Some(middle)));
    assert_eq!(store.get_photo_neighbours_in_gallery(1, late), (Some(middle), None));
    // An unknown photo has no neighbours.
    assert_eq!(store.get_photo_neighbours_in_gallery(1, 999), (None, None));
    // Neighbours are taken from the named owner's gallery, relative to
    // the photo's time, whoever owns the photo itself.
    assert_eq!(store.get_photo_neighbours_in_gallery(2, middle), (None, Some(foreign)));
}

#[test]
fn photo_counts_use_a_closed_window() {
    let mut store = Store::new();
    store.add_user("owner", "secret").unwrap();
    store.add_photo(1, &gallery_photo(10, "a")).unwrap();
    store.add_photo(1, &gallery_photo(20, "b")).unwrap();
    store.add_photo(1, &gallery_photo(30, "c")).unwrap();
    store.add_photo(2, &gallery_photo(20, "d")).unwrap();
    assert_eq!(store.get_photo_infos_count(1, 10, 20), 2);
    assert_eq!(store.get_photo_infos_count(1, 11, 19), 0);
    assert_eq!(store.get_photo_infos_count(1, 0, 100), 3);
    assert_eq!(store.get_photo_infos_count(2, 0, 100), 1);
}

#[test]
fn gallery_pages_run_newest_first() {
    let mut store = Store::new();
    store.add_user("owner", "secret").unwrap();
    store.add_user("other", "secret").unwrap();
    store.add_photo(1, &gallery_photo(10, "a")).unwrap();
    store.add_photo(1, &gallery_photo(30, "c")).unwrap();
    store.add_photo(1, &gallery_photo(20, "b")).unwrap();
    store.add_photo(1, &gallery_photo(40, "d")).unwrap();
    store.add_photo(2, &gallery_photo(35, "x")).unwrap();

    let all = store.get_photo_infos(1, 0, 100, 0, 10);
    let times: Vec<u64> = all.iter().map(|p| p.upload_time).collect();
    assert_eq!(times, vec![40, 30, 20, 10]);

    let page = store.get_photo_infos(1, 0, 100, 1, 2);
    let times: Vec<u64> = page.iter().map(|p| p.upload_time).collect();
    assert_eq!(times, vec![30, 20]);

    let window = store.get_photo_infos(1, 15, 35, 0, 10);
    let times: Vec<u64> = window.iter().map(|p| p.upload_time).collect();
    assert_eq!(times, vec![30, 20]);

    assert!(store.get_photo_infos(1, 0, 100, 9, 5).is_empty());
    assert!(store.get_photo_infos(1, 0, 100, 0, 0).is_empty());
    assert_eq!(store.get_photo_infos(2, 0, 100, 0, 10).len(), 1);
}

#[test]
fn renaming_changes_only_the_name() {
    let mut store = Store::new();
    store.add_user("owner", "secret").unwrap();
    let photo = store.add_photo(1, &gallery_photo(10, "before")).unwrap();
    assert_eq!(store.rename_photo(photo, "after"), Ok(()));
    let (owner_name, info) = store.get_photo_info(photo).unwrap();
    assert_eq!(owner_name, "owner");
    assert_eq!(info.name, "after");
    assert_eq!(info.upload_time, 10);
    // Renaming an absent photo changes nothing.
    assert_eq!(store.rename_photo(999, "ghost"), Ok(()));
    assert_eq!(store.get_photo_info(photo).unwrap().1.name, "after");
}

#[test]
fn unpublished_check_follows_the_rows() {
    let (mut ctx, users, photos) = flow_setup(2);
    let event = get_event(1).unwrap();
    let body = publication_body();
    event.user_action_post(&mut ctx, &users[0], &pick(photos[0]), &body).unwrap();
    assert!(!ctx.store.is_unpublished_user(SCHEDULED, GROUP, users[0].id));
    assert!(ctx.store.is_unpublished_user(SCHEDULED, GROUP, users[1].id));
    // The check is keyed by instance and group as well as user.
    assert!(ctx.store.is_unpublished_user(999, GROUP, users[0].id));
    assert!(ctx.store.is_unpublished_user(SCHEDULED, 999, users[0].id));
}

#[test]
fn registry_rejects_unknown_variants() {
    assert_eq!(
        get_event(2).err(),
        Some(CommonError::UnknownVariant { id: 2 })
    );
    assert_eq!(get_event(1).unwrap().id(), 1);
    assert_eq!(get_event(3).unwrap().id(), 3);
    assert_eq!(get_event(4).unwrap().id(), 4);
}
