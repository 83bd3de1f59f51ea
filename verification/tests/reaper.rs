use auth::logic::{ConfirmEmail, Email, URLToken};
use auth::tasks::{
    EmptyGeneratable, Reaper, ReaperAction, ReaperEvent, ReaperPhase, Task1Config, Task1Error,
    Timestampable,
};

fn reaper(expiry_time: u64, deletion_bulk_count: usize) -> Reaper<URLToken> {
    let cfg = Task1Config::new((), "email", expiry_time, deletion_bulk_count);
    let (reaper, ()) = Reaper::<URLToken>::new(cfg);
    reaper
}

fn token(text: &str) -> URLToken {
    URLToken::from_str_no_validate(text.to_string())
}

fn texts(reaper: &Reaper<URLToken>, count: usize) -> Vec<String> {
    reaper.batch()[..count].iter().map(|t| t.as_str().to_string()).collect()
}

#[test]
fn a_new_reaper_rests_on_a_buffer_of_placeholders() {
    let r = reaper(60, 4);
    assert_eq!(r.phase(), ReaperPhase::Idle);
    assert_eq!(r.batch().len(), 4);
    assert!(r.batch().iter().all(|t| t.as_str().is_empty()));
}

#[test]
fn a_pass_gathers_expired_keys_and_flushes_full_batches() {
    let mut r = reaper(10, 2);
    assert!(matches!(r.step(ReaperEvent::PassStarted { now: 100 }), ReaperAction::OpenScan));
    assert_eq!(r.phase(), ReaperPhase::Opening);
    assert!(matches!(r.step(ReaperEvent::ScanOpened), ReaperAction::NextEntry));
    assert_eq!(r.phase(), ReaperPhase::Scanning);

    // 100 > 10 + 89: expired
    assert!(matches!(
        r.step(ReaperEvent::Entry { id: token("a"), timestamp: 89 }),
        ReaperAction::NextEntry
    ));
    // 100 > 10 + 90 is false: kept
    assert!(matches!(
        r.step(ReaperEvent::Entry { id: token("b"), timestamp: 90 }),
        ReaperAction::NextEntry
    ));
    // second expired key fills the batch
    assert!(matches!(
        r.step(ReaperEvent::Entry { id: token("c"), timestamp: 0 }),
        ReaperAction::Delete { count: 2 }
    ));
    assert_eq!(r.phase(), ReaperPhase::FlushingBatch);
    assert_eq!(texts(&r, 2), vec!["a".to_string(), "c".to_string()]);

    assert!(matches!(r.step(ReaperEvent::Deleted { count: 2 }), ReaperAction::NextEntry));
    assert_eq!(r.phase(), ReaperPhase::Scanning);

    assert!(matches!(
        r.step(ReaperEvent::Entry { id: token("d"), timestamp: -5 }),
        ReaperAction::NextEntry
    ));
    assert!(matches!(r.step(ReaperEvent::ScanFinished), ReaperAction::Delete { count: 1 }));
    assert_eq!(r.phase(), ReaperPhase::FlushingTail);
    assert_eq!(texts(&r, 1), vec!["d".to_string()]);

    // the reaper sleeps for as long as an entry lives
    assert!(matches!(
        r.step(ReaperEvent::Deleted { count: 1 }),
        ReaperAction::Sleep { seconds: 10 }
    ));
    assert_eq!(r.phase(), ReaperPhase::Idle);

    // and the next pass starts from an empty batch
    assert!(matches!(r.step(ReaperEvent::PassStarted { now: 200 }), ReaperAction::OpenScan));
    assert!(matches!(r.step(ReaperEvent::ScanOpened), ReaperAction::NextEntry));
    assert!(matches!(r.step(ReaperEvent::ScanFinished), ReaperAction::Sleep { seconds: 10 }));
}

#[test]
fn a_scan_that_cannot_be_opened_stops_the_task() {
    let mut r = reaper(10, 2);
    r.step(ReaperEvent::PassStarted { now: 100 });
    match r.step(ReaperEvent::ScanFailed { err: "connection refused".to_string() }) {
        ReaperAction::Abort(Task1Error::RedisIterError { err, hash_name }) => {
            assert_eq!(err, "connection refused");
            assert_eq!(hash_name, "email");
        }
        other => panic!("unexpected action {:?}", other),
    }
    assert_eq!(r.phase(), ReaperPhase::Dead);
    assert!(matches!(r.step(ReaperEvent::PassStarted { now: 101 }), ReaperAction::Rejected));
}

#[test]
fn a_short_deletion_of_a_full_batch_stops_the_task() {
    let mut r = reaper(10, 2);
    r.step(ReaperEvent::PassStarted { now: 100 });
    r.step(ReaperEvent::ScanOpened);
    r.step(ReaperEvent::Entry { id: token("a"), timestamp: 0 });
    r.step(ReaperEvent::Entry { id: token("b"), timestamp: 0 });
    match r.step(ReaperEvent::Deleted { count: 1 }) {
        ReaperAction::Abort(Task1Error::Removal { hash_name }) => assert_eq!(hash_name, "email"),
        other => panic!("unexpected action {:?}", other),
    }
    assert_eq!(r.phase(), ReaperPhase::Dead);
}

#[test]
fn a_short_deletion_of_the_last_batch_stops_the_task() {
    let mut r = reaper(10, 3);
    r.step(ReaperEvent::PassStarted { now: 100 });
    r.step(ReaperEvent::ScanOpened);
    r.step(ReaperEvent::Entry { id: token("a"), timestamp: 0 });
    r.step(ReaperEvent::Entry { id: token("b"), timestamp: 0 });
    assert!(matches!(r.step(ReaperEvent::ScanFinished), ReaperAction::Delete { count: 2 }));
    assert!(matches!(
        r.step(ReaperEvent::Deleted { count: 0 }),
        ReaperAction::Abort(Task1Error::Removal { .. })
    ));
    assert_eq!(r.phase(), ReaperPhase::Dead);
}

#[test]
fn a_deletion_of_more_than_the_batch_stops_the_task_too() {
    let mut r = reaper(10, 1);
    r.step(ReaperEvent::PassStarted { now: 100 });
    r.step(ReaperEvent::ScanOpened);
    assert!(matches!(
        r.step(ReaperEvent::Entry { id: token("a"), timestamp: 0 }),
        ReaperAction::Delete { count: 1 }
    ));
    assert!(matches!(
        r.step(ReaperEvent::Deleted { count: 2 }),
        ReaperAction::Abort(Task1Error::Removal { .. })
    ));
}

#[test]
fn a_failing_deletion_stops_the_task() {
    let mut r = reaper(10, 1);
    r.step(ReaperEvent::PassStarted { now: 100 });
    r.step(ReaperEvent::ScanOpened);
    r.step(ReaperEvent::Entry { id: token("a"), timestamp: 0 });
    match r.step(ReaperEvent::DeleteFailed { err: "broken pipe".to_string() }) {
        ReaperAction::Abort(Task1Error::RedisRemovalError { err, hash_name }) => {
            assert_eq!(err, "broken pipe");
            assert_eq!(hash_name, "email");
        }
        other => panic!("unexpected action {:?}", other),
    }
    assert_eq!(r.phase(), ReaperPhase::Dead);
}

#[test]
fn an_event_out_of_turn_changes_nothing() {
    let mut r = reaper(10, 2);
    assert!(matches!(r.step(ReaperEvent::ScanOpened), ReaperAction::Rejected));
    assert!(matches!(r.step(ReaperEvent::Deleted { count: 2 }), ReaperAction::Rejected));
    assert!(matches!(
        r.step(ReaperEvent::Entry { id: token("a"), timestamp: 0 }),
        ReaperAction::Rejected
    ));
    assert_eq!(r.phase(), ReaperPhase::Idle);
    r.step(ReaperEvent::PassStarted { now: 5 });
    assert!(matches!(r.step(ReaperEvent::PassStarted { now: 6 }), ReaperAction::Rejected));
    assert!(matches!(r.step(ReaperEvent::ScanFinished), ReaperAction::Rejected));
    assert_eq!(r.phase(), ReaperPhase::Opening);
}

#[test]
fn the_whole_pass_is_judged_by_the_clock_reading_it_started_with() {
    let mut r = reaper(0, 5);
    r.step(ReaperEvent::PassStarted { now: 10 });
    r.step(ReaperEvent::ScanOpened);
    // made at 10 with expiry 0: 10 > 10 is false, kept
    r.step(ReaperEvent::Entry { id: token("kept"), timestamp: 10 });
    // made at 9: expired
    r.step(ReaperEvent::Entry { id: token("gone"), timestamp: 9 });
    assert!(matches!(r.step(ReaperEvent::ScanFinished), ReaperAction::Delete { count: 1 }));
    assert_eq!(texts(&r, 1), vec!["gone".to_string()]);
}

#[test]
fn expiry_is_reckoned_without_overflow() {
    let mut r = reaper(u64::MAX, 5);
    r.step(ReaperEvent::PassStarted { now: i64::MAX });
    r.step(ReaperEvent::ScanOpened);
    r.step(ReaperEvent::Entry { id: token("a"), timestamp: i64::MIN });
    r.step(ReaperEvent::Entry { id: token("b"), timestamp: i64::MAX });
    // i64::MAX > u64::MAX + i64::MIN fails, and so does the other
    assert!(matches!(
        r.step(ReaperEvent::ScanFinished),
        ReaperAction::Sleep { seconds: u64::MAX }
    ));

    let mut r = reaper(1, 5);
    r.step(ReaperEvent::PassStarted { now: i64::MIN });
    r.step(ReaperEvent::ScanOpened);
    r.step(ReaperEvent::Entry { id: token("a"), timestamp: i64::MAX });
    assert!(matches!(r.step(ReaperEvent::ScanFinished), ReaperAction::Sleep { seconds: 1 }));
}

#[test]
fn an_entry_event_carries_the_creation_time_of_its_record() {
    let record = ConfirmEmail { email: Email::from("a@b.c".to_string()), timestamp: 42 };
    assert_eq!(record.get_timestamp(), 42);
    match ReaperEvent::entry(token("a"), &record) {
        ReaperEvent::Entry { id, timestamp } => {
            assert_eq!(id.as_str(), "a");
            assert_eq!(timestamp, 42);
        }
        _ => panic!("not an entry"),
    }
}

#[test]
fn placeholders_are_empty_and_copies_of_keys_are_placeholders() {
    assert_eq!(URLToken::generate_empty().as_str(), "");
    assert_eq!(auth::logic::CaptchaID::generate_empty().as_str(), "");
    let real = URLToken::generate();
    assert_eq!(real.clone().as_str(), "");
    let id = auth::logic::CaptchaID::from_uuid(7);
    assert_eq!(id.clone().as_str(), "");
}

#[test]
fn errors_say_which_dataset_they_are_about() {
    let iter = Task1Error::RedisIterError { err: "x".to_string(), hash_name: "email".to_string() };
    assert_eq!(iter.message(), "email fields async iterator acquisition failed");
    let removal =
        Task1Error::RedisRemovalError { err: "x".to_string(), hash_name: "captcha".to_string() };
    assert_eq!(removal.message(), "Removing captcha fields from redis failed");
    let short = Task1Error::Removal { hash_name: "email".to_string() };
    assert_eq!(short.message(), "Not all email fields were removed from redis");
    assert_eq!(
        Task1Error::InvalidHashName.message(),
        "Invalid redis hash name chosen for field deletion"
    );
}
