use imaged::domain::image::{group_image_rows, Image, ImagePartition, ImageRow, ImageStatus};
use imaged::domain::task::{Task, TaskHost, TaskState, TaskType};
use imaged::shared::error::AppError;
use imaged::shared::types::TaskType as SharedTaskType;
use imaged::timestamp::Timestamp;

#[test]
fn image_status_round_trips_through_display_and_from_string_for_every_variant() {
    for s in [
        ImageStatus::Empty,
        ImageStatus::Capturing,
        ImageStatus::Ready,
        ImageStatus::Faulted,
    ] {
        assert_eq!(ImageStatus::from_string(s.to_string()).unwrap(), s);
    }
}

#[test]
fn image_status_display_is_lowercase() {
    assert_eq!(ImageStatus::Empty.to_string(), "empty");
    assert_eq!(ImageStatus::Capturing.to_string(), "capturing");
    assert_eq!(ImageStatus::Ready.to_string(), "ready");
    assert_eq!(ImageStatus::Faulted.to_string(), "faulted");
}

#[test]
fn every_status_the_repository_writes_parses_back_so_the_repository_expect_cannot_panic() {
    for stored in ["empty", "capturing", "ready", "faulted"] {
        assert!(
            ImageStatus::from_string(stored.to_string()).is_ok(),
            "status {stored:?} written by repository must parse"
        );
    }
}

#[test]
fn image_status_from_string_is_case_insensitive_as_derive_more_implements_it() {
    assert_eq!(
        ImageStatus::from_string("Empty".to_string()).unwrap(),
        ImageStatus::Empty
    );
    assert_eq!(
        ImageStatus::from_string("READY".to_string()).unwrap(),
        ImageStatus::Ready
    );
    assert_eq!(
        ImageStatus::from_string("cApTuRiNg".to_string()).unwrap(),
        ImageStatus::Capturing
    );
}

#[test]
fn image_status_from_string_rejects_unknown_with_internal_conversion_error() {
    let err = ImageStatus::from_string("bogus".to_string()).unwrap_err();
    match err {
        AppError::Internal(msg) => assert_eq!(msg, "conversion error"),
        other => panic!("expected AppError::Internal, got {other:?}"),
    }
}

fn epoch() -> Timestamp {
    Timestamp::new(0, 0)
}

fn host(state: TaskState) -> TaskHost {
    TaskHost {
        host_id: 1,
        state,
        error: None,
        started_at: None,
        finished_at: None,
    }
}

fn task(states: &[TaskState]) -> Task {
    Task {
        id: 1,
        task_type: TaskType::Deploy,
        hosts: states.iter().copied().map(host).collect(),
        image_id: None,
        image_name: None,
        image_deleted: false,
        created_at: epoch(),
    }
}

#[test]
fn an_empty_host_list_aggregates_to_cancelled() {
    assert_eq!(task(&[]).aggregate_state(), TaskState::Cancelled);
}

#[test]
fn all_pending_hosts_aggregate_to_pending() {
    assert_eq!(
        task(&[TaskState::Pending, TaskState::Pending]).aggregate_state(),
        TaskState::Pending
    );
}

#[test]
fn all_running_hosts_aggregate_to_running() {
    assert_eq!(
        task(&[TaskState::Running, TaskState::Running]).aggregate_state(),
        TaskState::Running
    );
}

#[test]
fn a_mix_of_pending_and_running_aggregates_to_running_because_one_has_started() {
    assert_eq!(
        task(&[TaskState::Pending, TaskState::Running]).aggregate_state(),
        TaskState::Running
    );
}

#[test]
fn a_pending_host_alongside_a_done_host_aggregates_to_running() {
    assert_eq!(
        task(&[TaskState::Pending, TaskState::Done]).aggregate_state(),
        TaskState::Running
    );
}

#[test]
fn all_done_hosts_aggregate_to_done() {
    assert_eq!(
        task(&[TaskState::Done, TaskState::Done]).aggregate_state(),
        TaskState::Done
    );
}

#[test]
fn all_cancelled_hosts_aggregate_to_cancelled() {
    assert_eq!(
        task(&[TaskState::Cancelled, TaskState::Cancelled]).aggregate_state(),
        TaskState::Cancelled
    );
}

#[test]
fn all_failed_hosts_aggregate_to_failed() {
    assert_eq!(
        task(&[TaskState::Failed, TaskState::Failed]).aggregate_state(),
        TaskState::Failed
    );
}

#[test]
fn a_terminal_mix_of_only_failures_and_cancellations_aggregates_to_failed() {
    assert_eq!(
        task(&[TaskState::Failed, TaskState::Cancelled]).aggregate_state(),
        TaskState::Failed
    );
}

#[test]
fn a_terminal_mix_of_done_and_failed_aggregates_to_partial() {
    assert_eq!(
        task(&[TaskState::Done, TaskState::Failed]).aggregate_state(),
        TaskState::Partial
    );
}

#[test]
fn a_terminal_mix_of_cancelled_and_done_aggregates_to_partial() {
    assert_eq!(
        task(&[TaskState::Cancelled, TaskState::Done]).aggregate_state(),
        TaskState::Partial
    );
}

#[test]
fn a_terminal_mix_of_done_failed_and_cancelled_aggregates_to_partial() {
    assert_eq!(
        task(&[TaskState::Done, TaskState::Failed, TaskState::Cancelled]).aggregate_state(),
        TaskState::Partial
    );
}

#[test]
fn a_single_host_task_aggregates_to_that_hosts_state() {
    assert_eq!(
        task(&[TaskState::Pending]).aggregate_state(),
        TaskState::Pending
    );
    assert_eq!(
        task(&[TaskState::Running]).aggregate_state(),
        TaskState::Running
    );
    assert_eq!(task(&[TaskState::Done]).aggregate_state(), TaskState::Done);
    assert_eq!(
        task(&[TaskState::Failed]).aggregate_state(),
        TaskState::Failed
    );
    assert_eq!(
        task(&[TaskState::Cancelled]).aggregate_state(),
        TaskState::Cancelled
    );
}

#[test]
fn aggregate_state_never_yields_partial_from_a_single_host() {
    for s in [
        TaskState::Pending,
        TaskState::Running,
        TaskState::Done,
        TaskState::Failed,
        TaskState::Cancelled,
    ] {
        assert_ne!(task(&[s]).aggregate_state(), TaskState::Partial);
    }
}

#[test]
fn task_state_is_variant_predicates_are_exhaustive_and_mutually_exclusive() {
    assert!(TaskState::Pending.is_pending());
    assert!(TaskState::Running.is_running());
    assert!(TaskState::Done.is_done());
    assert!(TaskState::Failed.is_failed());
    assert!(TaskState::Cancelled.is_cancelled());
    assert!(TaskState::Partial.is_partial());

    assert!(!TaskState::Pending.is_running());
    assert!(!TaskState::Done.is_partial());
    assert!(!TaskState::Partial.is_done());
    assert!(!TaskState::Failed.is_cancelled());
    assert!(!TaskState::Cancelled.is_failed());
}

#[test]
fn task_type_round_trips_through_display_and_from_string() {
    for t in [
        TaskType::Capture,
        TaskType::Deploy,
        TaskType::Multicast,
        TaskType::Reboot,
    ] {
        assert_eq!(TaskType::from_string(t.to_string()).unwrap(), t);
    }
}

#[test]
fn task_type_display_is_lowercase() {
    assert_eq!(TaskType::Capture.to_string(), "capture");
    assert_eq!(TaskType::Deploy.to_string(), "deploy");
    assert_eq!(TaskType::Multicast.to_string(), "multicast");
    assert_eq!(TaskType::Reboot.to_string(), "reboot");
}

#[test]
fn task_type_from_string_is_case_insensitive_as_derive_more_implements_it() {
    assert_eq!(
        TaskType::from_string("Capture".to_string()).unwrap(),
        TaskType::Capture
    );
    assert_eq!(
        TaskType::from_string("CAPTURE".to_string()).unwrap(),
        TaskType::Capture
    );
    assert_eq!(
        TaskType::from_string("dEpLoY".to_string()).unwrap(),
        TaskType::Deploy
    );
}

#[test]
fn task_type_from_string_rejects_unknown_with_internal_conversion_error() {
    let err = TaskType::from_string("bogus".to_string()).unwrap_err();
    match err {
        AppError::Internal(msg) => assert_eq!(msg, "conversion error"),
        other => panic!("expected AppError::Internal, got {other:?}"),
    }
}

#[test]
fn task_state_round_trips_through_display_and_from_string_for_all_variants() {
    for s in [
        TaskState::Pending,
        TaskState::Running,
        TaskState::Done,
        TaskState::Failed,
        TaskState::Cancelled,
        TaskState::Partial,
    ] {
        assert_eq!(TaskState::from_string(s.to_string()).unwrap(), s);
    }
}

#[test]
fn task_state_display_is_lowercase() {
    assert_eq!(TaskState::Pending.to_string(), "pending");
    assert_eq!(TaskState::Running.to_string(), "running");
    assert_eq!(TaskState::Done.to_string(), "done");
    assert_eq!(TaskState::Failed.to_string(), "failed");
    assert_eq!(TaskState::Cancelled.to_string(), "cancelled");
    assert_eq!(TaskState::Partial.to_string(), "partial");
}

#[test]
fn task_state_from_string_rejects_unknown_with_internal_conversion_error() {
    let err = TaskState::from_string("bogus".to_string()).unwrap_err();
    match err {
        AppError::Internal(msg) => assert_eq!(msg, "conversion error"),
        other => panic!("expected AppError::Internal, got {other:?}"),
    }
}

#[test]
fn task_type_converts_exhaustively_into_shared_task_type() {
    assert_eq!(
        SharedTaskType::from(TaskType::Capture),
        SharedTaskType::Capture
    );
    assert_eq!(
        SharedTaskType::from(TaskType::Deploy),
        SharedTaskType::Deploy
    );
    assert_eq!(
        SharedTaskType::from(TaskType::Multicast),
        SharedTaskType::Multicast
    );
    assert_eq!(
        SharedTaskType::from(TaskType::Reboot),
        SharedTaskType::Reboot
    );
}

// ---- rows of the images/partitions join ----

fn row(image_id: i64, status: &str, partition: Option<(i64, i64, &str, i64)>) -> ImageRow {
    ImageRow {
        image_id,
        image_name: format!("image-{image_id}"),
        image_status: status.to_string(),
        error: None,
        captured_at: None,
        p_id: partition.map(|p| p.0),
        p_num: partition.map(|p| p.1),
        p_fstype: partition.map(|p| p.2.to_string()),
        p_size: partition.map(|p| p.3),
    }
}

fn numbers(image: &Image) -> Vec<i64> {
    image.partitions.iter().map(|p| p.partition_number).collect()
}

#[test]
fn grouping_keeps_images_in_first_appearance_order_with_their_partitions() {
    let rows = vec![
        row(1, "ready", Some((10, 1, "vfat", 100))),
        row(1, "ready", Some((11, 2, "ext4", 200))),
        row(2, "empty", None),
        row(3, "capturing", Some((30, 1, "ext4", 5))),
    ];
    let images = group_image_rows(rows).unwrap();
    let ids: Vec<i64> = images.iter().map(|i| i.id).collect();
    assert_eq!(ids, vec![1, 2, 3]);
    assert_eq!(numbers(&images[0]), vec![1, 2]);
    assert!(images[1].partitions.is_empty());
    assert_eq!(numbers(&images[2]), vec![1]);
    assert_eq!(images[0].status, ImageStatus::Ready);
    assert_eq!(images[1].status, ImageStatus::Empty);
    assert_eq!(images[2].status, ImageStatus::Capturing);
    assert_eq!(images[0].name, "image-1");
    assert_eq!(images[0].partitions[1].fstype, "ext4");
    assert_eq!(images[0].partitions[1].size_bytes, 200);
}

#[test]
fn grouping_gathers_rows_of_one_image_that_are_not_adjacent() {
    let rows = vec![
        row(5, "ready", Some((1, 1, "ext4", 1))),
        row(4, "ready", Some((2, 1, "ext4", 1))),
        row(5, "ready", Some((3, 2, "ext4", 1))),
    ];
    let images = group_image_rows(rows).unwrap();
    let ids: Vec<i64> = images.iter().map(|i| i.id).collect();
    assert_eq!(ids, vec![5, 4]);
    assert_eq!(numbers(&images[0]), vec![1, 2]);
    assert_eq!(numbers(&images[1]), vec![1]);
}

#[test]
fn a_row_missing_a_partition_column_adds_no_partition() {
    let mut partial = row(1, "ready", Some((7, 3, "ext4", 9)));
    partial.p_fstype = None;
    let images = group_image_rows(vec![partial]).unwrap();
    assert_eq!(images.len(), 1);
    assert!(images[0].partitions.is_empty());
}

#[test]
fn a_negative_stored_size_reads_back_as_a_huge_unsigned_size() {
    let images = group_image_rows(vec![row(1, "ready", Some((1, 1, "ext4", -1)))]).unwrap();
    assert_eq!(images[0].partitions[0].size_bytes, u64::MAX);
}

#[test]
fn the_first_row_of_an_image_decides_its_columns() {
    let mut first = row(1, "READY", None);
    first.error = Some("first".to_string());
    first.captured_at = Some(Timestamp::new(10, 5));
    let mut second = row(1, "bogus", Some((1, 1, "ext4", 1)));
    second.error = Some("second".to_string());
    let images = group_image_rows(vec![first, second]).unwrap();
    assert_eq!(images[0].status, ImageStatus::Ready);
    assert_eq!(images[0].error.as_deref(), Some("first"));
    assert_eq!(images[0].captured_at, Some(Timestamp::new(10, 5)));
    assert_eq!(numbers(&images[0]), vec![1]);
}

#[test]
fn an_unknown_status_on_a_first_row_fails_the_whole_grouping() {
    let rows = vec![row(1, "ready", None), row(2, "bogus", None)];
    match group_image_rows(rows) {
        Err(AppError::Internal(msg)) => assert_eq!(msg, "conversion error"),
        other => panic!("expected an internal conversion error, got {other:?}"),
    }
}

#[test]
fn no_rows_group_into_no_images() {
    assert!(group_image_rows(Vec::new()).unwrap().is_empty());
}

#[test]
fn image_from_row_parses_the_status_and_keeps_the_rest() {
    let image = Image::from_row(
        3,
        "golden".to_string(),
        None,
        "Faulted".to_string(),
        Some("disk exploded".to_string()),
        vec![ImagePartition::new(1, 1, "ext4".to_string(), 10)],
    )
    .unwrap();
    assert_eq!(image.id, 3);
    assert_eq!(image.status, ImageStatus::Faulted);
    assert_eq!(image.error.as_deref(), Some("disk exploded"));
    assert_eq!(image.partitions.len(), 1);
    assert!(Image::from_row(3, "x".to_string(), None, "gone".to_string(), None, Vec::new()).is_err());
}

#[test]
fn partition_from_row_reinterprets_the_stored_size() {
    let p = ImagePartition::from_row(1, 2, "ext4".to_string(), i64::MAX);
    assert_eq!(p.size_bytes, i64::MAX as u64);
    assert_eq!(ImagePartition::from_row(1, 2, "ext4".to_string(), -2).size_bytes, u64::MAX - 1);
}

#[test]
fn task_from_row_parses_its_type_and_deletion_flag() {
    let t = Task::from_row(9, "MultiCast".to_string(), Some(4), Some("img".to_string()), 1, epoch(), Vec::new()).unwrap();
    assert_eq!(t.task_type, TaskType::Multicast);
    assert!(t.image_deleted);
    assert_eq!(t.image_id, Some(4));
    let t = Task::from_row(9, "reboot".to_string(), None, None, 0, epoch(), Vec::new()).unwrap();
    assert!(!t.image_deleted);
    match Task::from_row(9, "bogus".to_string(), None, None, 0, epoch(), Vec::new()) {
        Err(AppError::Internal(msg)) => assert_eq!(msg, "conversion error"),
        other => panic!("expected an internal conversion error, got {other:?}"),
    }
}
