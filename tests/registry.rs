use kalamche_upload::error::AppErrorType;
use kalamche_upload::registry::ProgressRegistry;

#[test]
fn subscribe_unknown_is_not_found() {
    let reg = ProgressRegistry::new();
    assert!(matches!(reg.subscribe("0123456789abcdef"), Err(AppErrorType::NotFound)));
}

#[test]
fn begin_then_subscribe_gives_total_and_events() {
    let mut reg = ProgressRegistry::new();
    let tx = reg.begin("abc".to_string(), 4096);
    let (total, rx) = reg.subscribe("abc").ok().unwrap();
    let mut rx = rx.into_inner();
    assert_eq!(total, 4096);
    tx.handle().send(1024).unwrap();
    assert_eq!(rx.try_recv().unwrap(), 1024);
    assert!(reg.contains("abc"));
    assert_eq!(reg.total_of("abc"), Some(4096));
}

#[test]
fn late_subscriber_misses_earlier_events() {
    let mut reg = ProgressRegistry::new();
    let tx = reg.begin("abc".to_string(), 10);
    let mut early = reg.subscribe("abc").ok().unwrap().1.into_inner();
    tx.handle().send(3).unwrap();
    let mut late = reg.subscribe("abc").ok().unwrap().1.into_inner();
    tx.handle().send(7).unwrap();
    assert_eq!(early.try_recv().unwrap(), 3);
    assert_eq!(early.try_recv().unwrap(), 7);
    assert_eq!(late.try_recv().unwrap(), 7);
    assert!(late.try_recv().is_err());
}

#[test]
fn end_removes_entry_and_late_subscribe_fails() {
    let mut reg = ProgressRegistry::new();
    let _tx = reg.begin("abc".to_string(), 10);
    reg.begin("def".to_string(), 20);
    reg.end("abc");
    assert!(!reg.contains("abc"));
    assert!(matches!(reg.subscribe("abc"), Err(AppErrorType::NotFound)));
    assert_eq!(reg.total_of("def"), Some(20));
}

#[test]
fn end_of_absent_id_is_harmless() {
    let mut reg = ProgressRegistry::new();
    reg.begin("abc".to_string(), 10);
    reg.end("zzz");
    reg.end("zzz");
    assert_eq!(reg.total_of("abc"), Some(10));
}

#[test]
fn second_begin_overwrites_first_entry() {
    let mut reg = ProgressRegistry::new();
    let first_tx = reg.begin("same".to_string(), 100);
    let mut first_rx = reg.subscribe("same").ok().unwrap().1.into_inner();
    let second_tx = reg.begin("same".to_string(), 200);
    let (total, second_rx) = reg.subscribe("same").ok().unwrap();
    let mut second_rx = second_rx.into_inner();
    assert_eq!(total, 200);
    second_tx.handle().send(50).unwrap();
    assert_eq!(second_rx.try_recv().unwrap(), 50);
    assert!(first_rx.try_recv().is_err());
    drop(first_tx);
}

#[test]
fn cloned_handle_sends_on_the_same_channel() {
    let mut reg = ProgressRegistry::new();
    let tx = reg.begin("abc".to_string(), 10);
    let mut rx = tx.subscribe().into_inner();
    let mut entry_rx = reg.subscribe("abc").ok().unwrap().1.into_inner();
    tx.clone_handle().handle().send(4).unwrap();
    assert_eq!(rx.try_recv().unwrap(), 4);
    assert_eq!(entry_rx.try_recv().unwrap(), 4);
}
