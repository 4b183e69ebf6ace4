use kalamche_upload::common::sse_frame;
use kalamche_upload::content_id::generate_file_hash;
use kalamche_upload::error::{AppError, AppErrorType};
use kalamche_upload::feed::{FeedEvent, ProgressFeed};
use kalamche_upload::intake::{check_field, open_feed};
use kalamche_upload::registry::ProgressRegistry;
use kalamche_upload::streamed::{RunningFeed, StreamedParts};
use kalamche_upload::temp_file::{StagingNames, TempFile};

#[test]
fn feed_emits_until_total_reached() {
    let mut feed = ProgressFeed::new("abc".to_string(), 100);
    let s = feed.on_event(FeedEvent::Progress { bytes: 40 }).unwrap();
    assert_eq!((s.bytes_uploaded, s.total_bytes, s.file_hash.as_str()), (40, 100, "abc"));
    assert!(!feed.finished);
    let s = feed.on_event(FeedEvent::Progress { bytes: 100 }).unwrap();
    assert_eq!(s.bytes_uploaded, 100);
    assert!(feed.finished);
    assert!(feed.completed);
    assert!(feed.on_event(FeedEvent::Progress { bytes: 100 }).is_none());
}

#[test]
fn feed_closed_ends_without_completion_event() {
    let mut feed = ProgressFeed::new("abc".to_string(), 100);
    assert!(feed.on_event(FeedEvent::Progress { bytes: 30 }).is_some());
    assert!(feed.on_event(FeedEvent::Closed).is_none());
    assert!(feed.finished);
    assert!(!feed.completed);
    assert!(feed.on_event(FeedEvent::Progress { bytes: 100 }).is_none());
}

#[test]
fn open_feed_by_content_id() {
    let mut reg = ProgressRegistry::new();
    let id = generate_file_hash("cat.png");
    let tx = reg.begin(id.clone(), 2048);
    let (feed, rx) = open_feed(&reg, &id).ok().unwrap();
    let mut rx = rx.into_inner();
    assert_eq!(feed.file_hash, id);
    assert_eq!(feed.total_bytes, 2048);
    assert!(!feed.completed);
    tx.handle().send(2048).unwrap();
    assert_eq!(rx.try_recv().unwrap(), 2048);
    assert!(matches!(open_feed(&reg, "cat.png"), Err(AppErrorType::NotFound)));
    assert!(matches!(open_feed(&reg, &generate_file_hash("dog.png")), Err(AppErrorType::NotFound)));
    reg.end(&id);
    assert!(matches!(open_feed(&reg, &id), Err(AppErrorType::NotFound)));
}

#[test]
fn open_feed_does_not_hash_again() {
    let mut reg = ProgressRegistry::new();
    reg.begin(generate_file_hash("a"), 5);
    assert!(matches!(open_feed(&reg, "a"), Err(AppErrorType::NotFound)));
    reg.begin("a".to_string(), 7);
    assert_eq!(open_feed(&reg, "a").ok().unwrap().0.total_bytes, 7);
}

#[test]
fn sse_frame_wraps_payload() {
    assert_eq!(sse_frame("{\"a\":1}"), "data: {\"a\":1}\n\n");
    assert_eq!(sse_frame(""), "data: \n\n");
}

#[test]
fn staging_locations_are_exclusive() {
    let mut names = StagingNames::new();
    let a = names.fresh("0123456789abcdef").unwrap();
    let b = names.fresh("0123456789abcdef").unwrap();
    let c = names.fresh("fedcba9876543210").unwrap();
    assert_eq!(a.path(), "/tmp/0000000000000000-0123456789abcdef");
    assert_eq!(b.path(), "/tmp/0000000000000001-0123456789abcdef");
    assert_eq!(c.path(), "/tmp/0000000000000002-fedcba9876543210");
    assert_ne!(a.path(), b.path());
    assert_eq!(TempFile::new("/var/x".to_string()).path(), "/var/x");
}

#[test]
fn check_field_requires_type_and_name() {
    let ok = check_field(Some("image/png".to_string()), Some("a.png".to_string()));
    assert!(matches!(ok, Ok((ref ct, ref n)) if ct == "image/png" && n == "a.png"));
    assert!(matches!(check_field(None, Some("a".to_string())), Err(AppErrorType::InvalidFile)));
    assert!(matches!(check_field(Some("t".to_string()), None), Err(AppErrorType::InvalidFile)));
}

#[test]
fn error_names_and_status() {
    assert_eq!(AppErrorType::NotFound.code(), "not_found");
    assert_eq!(AppErrorType::UploadFaild.code(), "upload_faild");
    assert_eq!(AppErrorType::InternalServerError.label(), "InternalServerError");
    let e = AppError::of_type(AppErrorType::InvalidFile);
    assert_eq!(e.error_type, AppErrorType::InvalidFile);
    assert_eq!(e.inner, "InvalidFile");
    assert_eq!(e.status_code(), 500);
    let e = AppError::with_cause(AppErrorType::NotFound, "gone".to_string());
    assert_eq!(e.status_code(), 500);
    assert_eq!(e.inner, "gone");
}

#[test]
fn streamed_parts_are_numbered_in_order() {
    let mut parts = StreamedParts::new();
    assert_eq!(parts.next_part_number(), Ok(1));
    parts.record(Some("a".to_string())).unwrap();
    parts.record(Some("b".to_string())).unwrap();
    assert_eq!(parts.next_part_number(), Ok(3));
    assert_eq!(parts.record(None), Err(AppErrorType::UploadFaild));
    let numbers: Vec<i32> = parts.parts.iter().map(|p| p.part_number).collect();
    assert_eq!(numbers, vec![1, 2]);
    assert_eq!(parts.parts[1].e_tag, "b");
}

#[test]
fn running_feed_adds_chunk_sizes() {
    let mut feed = RunningFeed::new("id".to_string(), 0);
    assert_eq!(feed.on_event(FeedEvent::Progress { bytes: 10 }).unwrap().bytes_uploaded, 10);
    assert_eq!(feed.on_event(FeedEvent::Progress { bytes: 5 }).unwrap().bytes_uploaded, 15);
    assert!(!feed.finished);
    assert_eq!(
        feed.on_event(FeedEvent::Progress { bytes: u64::MAX }).unwrap().bytes_uploaded,
        u64::MAX
    );
    assert!(feed.on_event(FeedEvent::Closed).is_none());
    assert!(feed.finished);
    assert!(feed.on_event(FeedEvent::Progress { bytes: 1 }).is_none());
}
