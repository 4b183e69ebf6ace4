use kalamche_upload::config::MIN_PART_SIZE;
use kalamche_upload::error::AppErrorType;
use kalamche_upload::upload::{UploadAction, UploadEvent, UploadMachine, UploadPhase};

const MIB: u64 = 1024 * 1024;

/// Feeds success events until the machine ends; returns the actions and the
/// published values.
fn run_ok(total: u64, part_size: u64) -> (UploadMachine, Vec<UploadAction>, Vec<u64>) {
    let mut m = UploadMachine::new(part_size);
    let mut actions = Vec::new();
    let mut published = Vec::new();
    let mut event = UploadEvent::Staged { total_bytes: total };
    loop {
        let step = m.step(event);
        if let Some(v) = step.publish {
            published.push(v);
        }
        actions.push(step.action);
        event = match step.action {
            UploadAction::Register { .. } => UploadEvent::Registered,
            UploadAction::PutObject { .. } => UploadEvent::ObjectStored,
            UploadAction::OpenSession => UploadEvent::SessionOpened {
                upload_id: Some("session-1".to_string()),
            },
            UploadAction::UploadPart { part_number, .. } => UploadEvent::PartStored {
                e_tag: Some(format!("etag-{}", part_number)),
            },
            UploadAction::Complete => UploadEvent::UploadCompleted,
            UploadAction::Finish | UploadAction::Abandon { .. } | UploadAction::Idle => break,
        };
    }
    (m, actions, published)
}

fn part_uploads(actions: &[UploadAction]) -> Vec<(i32, u64)> {
    actions
        .iter()
        .filter_map(|a| match a {
            UploadAction::UploadPart { part_number, size } => Some((*part_number, *size)),
            _ => None,
        })
        .collect()
}

#[test]
fn twelve_mib_goes_up_in_three_parts() {
    let (m, actions, published) = run_ok(12 * MIB, 5 * MIB);
    assert_eq!(part_uploads(&actions), vec![(1, 5 * MIB), (2, 5 * MIB), (3, 2 * MIB)]);
    assert!(!actions.iter().any(|a| matches!(a, UploadAction::PutObject { .. })));
    assert_eq!(published, vec![5 * MIB, 10 * MIB, 12 * MIB]);
    assert_eq!(*published.last().unwrap(), 12_582_912);
    assert_eq!(m.phase, UploadPhase::Done);
    let numbers: Vec<i32> = m.parts.iter().map(|p| p.part_number).collect();
    assert_eq!(numbers, vec![1, 2, 3]);
    let tags: Vec<&str> = m.parts.iter().map(|p| p.e_tag.as_str()).collect();
    assert_eq!(tags, vec!["etag-1", "etag-2", "etag-3"]);
    assert_eq!(m.upload_id, "session-1");
    assert_eq!(actions.last(), Some(&UploadAction::Finish));
}

#[test]
fn two_kib_goes_up_in_one_put() {
    let (m, actions, published) = run_ok(2048, 5 * MIB);
    assert_eq!(
        actions,
        vec![
            UploadAction::Register { total_bytes: 2048 },
            UploadAction::PutObject { total_bytes: 2048 },
            UploadAction::Finish,
        ]
    );
    assert!(!actions.iter().any(|a| matches!(a, UploadAction::OpenSession)));
    assert_eq!(published, vec![2048]);
    assert_eq!(m.phase, UploadPhase::Done);
    assert!(m.parts.is_empty());
}

#[test]
fn part_plan_over_many_sizes() {
    let ps: u64 = 1000;
    for s in [0u64, 1, 999, 1000, 1001, 1999, 2000, 2001, 4500, 10_000] {
        let (m, actions, published) = run_ok(s, ps);
        let puts = actions.iter().filter(|a| matches!(a, UploadAction::PutObject { .. })).count();
        let parts = part_uploads(&actions);
        if s < ps {
            assert_eq!(puts, 1);
            assert!(parts.is_empty());
        } else {
            assert_eq!(puts, 0);
            assert_eq!(parts.len() as u64, (s + ps - 1) / ps);
            let last = parts.last().unwrap().1;
            assert_eq!(last, if s % ps == 0 { ps } else { s % ps });
            for (i, (n, size)) in parts.iter().enumerate() {
                assert_eq!(*n as usize, i + 1);
                if i + 1 < parts.len() {
                    assert_eq!(*size, ps);
                }
            }
            assert_eq!(parts.iter().map(|p| p.1).sum::<u64>(), s);
        }
        assert!(published.windows(2).all(|w| w[0] <= w[1]));
        assert_eq!(*published.last().unwrap(), s);
        assert_eq!(m.uploaded, s);
    }
}

#[test]
fn exact_multiple_has_no_remainder_part() {
    let (_, actions, _) = run_ok(10 * MIB, 5 * MIB);
    assert_eq!(part_uploads(&actions), vec![(1, 5 * MIB), (2, 5 * MIB)]);
}

#[test]
fn threshold_size_goes_multipart() {
    let (_, actions, _) = run_ok(MIN_PART_SIZE, MIN_PART_SIZE);
    assert_eq!(part_uploads(&actions), vec![(1, MIN_PART_SIZE)]);
}

#[test]
fn staging_failure_abandons() {
    let mut m = UploadMachine::new(5 * MIB);
    let step = m.step(UploadEvent::StepFailed { error: AppErrorType::UploadFaild });
    assert_eq!(step.action, UploadAction::Abandon { error: AppErrorType::UploadFaild });
    assert_eq!(step.publish, None);
    assert_eq!(m.phase, UploadPhase::Failed);
    assert_eq!(m.error, Some(AppErrorType::UploadFaild));
}

#[test]
fn part_failure_abandons_without_full_progress() {
    let mut m = UploadMachine::new(5 * MIB);
    m.step(UploadEvent::Staged { total_bytes: 12 * MIB });
    m.step(UploadEvent::Registered);
    m.step(UploadEvent::SessionOpened { upload_id: Some("u".to_string()) });
    let first = m.step(UploadEvent::PartStored { e_tag: Some("t1".to_string()) });
    assert_eq!(first.publish, Some(5 * MIB));
    let step = m.step(UploadEvent::StepFailed { error: AppErrorType::UploadFaild });
    assert_eq!(step.action, UploadAction::Abandon { error: AppErrorType::UploadFaild });
    assert_eq!(step.publish, None);
    assert!(m.uploaded < m.total_bytes);
    let after = m.step(UploadEvent::PartStored { e_tag: Some("t2".to_string()) });
    assert_eq!(after.action, UploadAction::Idle);
    assert_eq!(m.parts.len(), 1);
}

#[test]
fn missing_session_id_fails_upload() {
    let mut m = UploadMachine::new(5 * MIB);
    m.step(UploadEvent::Staged { total_bytes: 6 * MIB });
    assert_eq!(m.step(UploadEvent::Registered).action, UploadAction::OpenSession);
    let step = m.step(UploadEvent::SessionOpened { upload_id: None });
    assert_eq!(step.action, UploadAction::Abandon { error: AppErrorType::UploadFaild });
}

#[test]
fn missing_completion_token_fails_upload() {
    let mut m = UploadMachine::new(5 * MIB);
    m.step(UploadEvent::Staged { total_bytes: 6 * MIB });
    m.step(UploadEvent::Registered);
    m.step(UploadEvent::SessionOpened { upload_id: Some("u".to_string()) });
    let step = m.step(UploadEvent::PartStored { e_tag: None });
    assert_eq!(step.action, UploadAction::Abandon { error: AppErrorType::UploadFaild });
    assert_eq!(m.phase, UploadPhase::Failed);
}

#[test]
fn unexpected_event_is_internal_error() {
    let mut m = UploadMachine::new(5 * MIB);
    let step = m.step(UploadEvent::UploadCompleted);
    assert_eq!(step.action, UploadAction::Abandon { error: AppErrorType::InternalServerError });
}

#[test]
fn too_many_parts_is_too_large() {
    let mut m = UploadMachine::new(1);
    let step = m.step(UploadEvent::Staged { total_bytes: 1u64 << 40 });
    assert_eq!(step.action, UploadAction::Abandon { error: AppErrorType::ToLarge });
}

#[test]
fn finished_machine_is_idle() {
    let (mut m, _, _) = run_ok(10, 100);
    let step = m.step(UploadEvent::ObjectStored);
    assert_eq!(step.action, UploadAction::Idle);
    assert!(m.is_finished());
}

#[test]
fn session_id_is_kept_across_parts() {
    let mut m = UploadMachine::new(5 * MIB);
    m.step(UploadEvent::Staged { total_bytes: 11 * MIB });
    m.step(UploadEvent::Registered);
    let s = m.step(UploadEvent::SessionOpened { upload_id: Some("sess".to_string()) });
    assert_eq!(s.publish, None);
    m.step(UploadEvent::PartStored { e_tag: Some("a".to_string()) });
    m.step(UploadEvent::PartStored { e_tag: Some("b".to_string()) });
    assert_eq!(m.upload_id, "sess");
}
