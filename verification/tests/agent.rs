use imaged::client::{
    check_image_ready, check_task_report, check_upload_partition_data, check_upload_partition_table,
    require_next_task, verify_capture_task, verify_deploy_task, partition_headers, AgentInfo, MarkErrorPayload,
    StartStreamQuery,
};
use imaged::dashboard::{
    cancelled_capture_message, check_host_deletable, plan_cancel, plan_retry, should_push_retried,
};
use imaged::domain::image::ImageStatus;
use imaged::domain::task::{Task, TaskHost, TaskState, TaskType};
use imaged::shared::error::AppError;
use imaged::timestamp::Timestamp;

fn task(id: i64, task_type: TaskType, states: &[TaskState], image_id: Option<i64>) -> Task {
    Task {
        id,
        task_type,
        hosts: states
            .iter()
            .enumerate()
            .map(|(k, s)| TaskHost {
                host_id: 10 + k as i64,
                state: *s,
                error: None,
                started_at: None,
                finished_at: None,
            })
            .collect(),
        image_id,
        image_name: None,
        image_deleted: false,
        created_at: Timestamp::new(0, 0),
    }
}

fn invalid(r: Result<impl std::fmt::Debug, AppError>) -> String {
    match r {
        Err(AppError::InvalidArgument(m)) => m,
        other => panic!("expected an invalid argument, got {other:?}"),
    }
}

#[test]
fn an_agent_without_a_mac_is_refused() {
    let info = AgentInfo::from_headers(Some("aa:bb".into()), Some("10.0.0.1".into())).unwrap();
    assert_eq!(info.0 .0, "aa:bb");
    assert_eq!(info.0 .1.as_deref(), Some("10.0.0.1"));
    assert_eq!(invalid(AgentInfo::from_headers(None, Some("10.0.0.1".into()))), "missing mac");
}

#[test]
fn the_request_bodies_carry_their_fields() {
    let q = StartStreamQuery { disk_size_bytes: 512 };
    assert_eq!(q.disk_size_bytes, 512);
    let p = MarkErrorPayload { error: "disk gone".into() };
    assert_eq!(p.error, "disk gone");
}

#[test]
fn a_host_without_a_task_has_no_active_task() {
    assert_eq!(
        invalid(require_next_task(None, "aa:bb")),
        "No active task found for host aa:bb"
    );
    let t = require_next_task(Some(task(3, TaskType::Deploy, &[TaskState::Pending], Some(1))), "aa").unwrap();
    assert_eq!(t.id, 3);
}

#[test]
fn only_the_matching_task_of_the_right_kind_yields_its_image() {
    let capture = task(4, TaskType::Capture, &[TaskState::Pending], Some(9));
    assert_eq!(verify_capture_task(&capture, 4).unwrap(), 9);
    assert_eq!(invalid(verify_capture_task(&capture, 5)), "No capture task for task 5 found");
    assert_eq!(invalid(verify_deploy_task(&capture, 4)), "No deploy task for task 4 found");
    let no_image = task(4, TaskType::Capture, &[TaskState::Pending], None);
    assert_eq!(invalid(verify_capture_task(&no_image, 4)), "Task 4 is not valid");
}

#[test]
fn partitions_follow_the_table_during_a_capture() {
    let pending = task(1, TaskType::Capture, &[TaskState::Pending], Some(1));
    let running = task(1, TaskType::Capture, &[TaskState::Running], Some(1));
    assert!(check_upload_partition_table(&pending).is_ok());
    assert_eq!(invalid(check_upload_partition_table(&running)), "Task has already stared");
    assert!(check_upload_partition_data(&running).is_ok());
    assert_eq!(invalid(check_upload_partition_data(&pending)), "Task has not yet started");
}

#[test]
fn only_a_ready_image_can_be_downloaded() {
    assert!(check_image_ready(2, ImageStatus::Ready).is_ok());
    match check_image_ready(2, ImageStatus::Capturing) {
        Err(AppError::FailedPrecondition(m)) => assert_eq!(m, "Image 2 is not ready"),
        other => panic!("unexpected {other:?}"),
    }
}

#[test]
fn a_report_must_be_for_the_hosts_next_task() {
    let running_capture = task(7, TaskType::Capture, &[TaskState::Running], Some(3));
    assert_eq!(check_task_report(&running_capture, 7, "aa").unwrap(), Some(3));
    let running_deploy = task(7, TaskType::Deploy, &[TaskState::Running], Some(3));
    assert_eq!(check_task_report(&running_deploy, 7, "aa").unwrap(), None);
    assert_eq!(
        invalid(check_task_report(&running_capture, 8, "aa:bb")),
        "Task 8 is not the next task for host aa:bb"
    );
}

#[test]
fn a_host_may_report_on_a_row_it_never_started() {
    let pending = task(7, TaskType::Deploy, &[TaskState::Pending, TaskState::Pending], Some(3));
    assert_eq!(check_task_report(&pending, 7, "aa").unwrap(), None);
    let pending_capture = task(7, TaskType::Capture, &[TaskState::Pending], Some(3));
    assert_eq!(check_task_report(&pending_capture, 7, "aa").unwrap(), Some(3));
}

#[test]
fn hosts_with_active_tasks_cannot_be_deleted() {
    assert!(check_host_deletable(5, &None).is_ok());
    let active = task(1, TaskType::Deploy, &[TaskState::Pending], Some(1));
    assert_eq!(
        invalid(check_host_deletable(5, &Some(active))),
        "Host with id 5 has active tasks, finish or cancel those first"
    );
}

#[test]
fn cancelling_a_capture_faults_its_image_and_tells_its_host() {
    let capture = task(2, TaskType::Capture, &[TaskState::Running], Some(8));
    let plan = plan_cancel(&capture).unwrap();
    assert_eq!(plan.fault_image, Some(8));
    assert_eq!(plan.notify_hosts, vec![10]);
    let deploy = task(2, TaskType::Deploy, &[TaskState::Pending], Some(8));
    let plan = plan_cancel(&deploy).unwrap();
    assert_eq!(plan.fault_image, None);
    assert_eq!(plan.notify_hosts, vec![10]);
    let done = task(2, TaskType::Deploy, &[TaskState::Done], Some(8));
    assert_eq!(
        invalid(plan_cancel(&done)),
        "cannot cancel task 2, task is not pending or running"
    );
    assert_eq!(cancelled_capture_message(), "Capture task was cancelled by user");
}

#[test]
fn cancelling_propagates_to_running_hosts_but_not_to_a_done_host() {
    let t = task(2, TaskType::Deploy, &[TaskState::Done, TaskState::Running, TaskState::Pending], Some(8));
    assert_eq!(plan_cancel(&t).unwrap().notify_hosts, vec![11, 12]);
}

#[test]
fn retrying_a_partial_task_is_allowed_but_not_once_its_image_is_deleted() {
    let partial = task(3, TaskType::Deploy, &[TaskState::Done, TaskState::Failed], Some(1));
    assert_eq!(plan_retry(&partial).unwrap(), false);
    let mut deleted = task(3, TaskType::Deploy, &[TaskState::Failed], Some(1));
    deleted.image_deleted = true;
    assert_eq!(invalid(plan_retry(&deleted)), "cannot retry task 3, image is deleted");
}

#[test]
fn only_failed_or_cancelled_tasks_with_hosts_and_an_image_are_retried() {
    let failed_multicast = task(3, TaskType::Multicast, &[TaskState::Failed], Some(1));
    assert_eq!(plan_retry(&failed_multicast).unwrap(), true);
    let cancelled_deploy = task(3, TaskType::Deploy, &[TaskState::Cancelled], Some(1));
    assert_eq!(plan_retry(&cancelled_deploy).unwrap(), false);
    assert_eq!(
        invalid(plan_retry(&task(3, TaskType::Deploy, &[TaskState::Running], Some(1)))),
        "cannot retry task 3, task is not failed or cancelled"
    );
    assert_eq!(
        invalid(plan_retry(&task(3, TaskType::Deploy, &[], Some(1)))),
        "cannot retry task 3, hosts are deleted"
    );
    assert_eq!(
        invalid(plan_retry(&task(3, TaskType::Deploy, &[TaskState::Failed], None))),
        "cannot retry task 3, image is deleted"
    );
}

#[test]
fn a_retried_task_is_pushed_only_when_it_is_the_hosts_next_task() {
    let next = task(4, TaskType::Deploy, &[TaskState::Pending], Some(1));
    assert!(should_push_retried(&Some(next.clone()), 4));
    assert!(!should_push_retried(&Some(next), 5));
    assert!(!should_push_retried(&None, 4));
}

#[test]
fn an_uploaded_partition_names_its_filesystem_and_size() {
    let ok = partition_headers(Some("ext4".into()), Some("1048576".into())).unwrap();
    assert_eq!(ok, ("ext4".to_string(), 1048576));
    assert_eq!(partition_headers(Some("swap".into()), Some("+7".into())).unwrap().1, 7);
    assert_eq!(partition_headers(Some("swap".into()), Some("-7".into())).unwrap().1, -7);
    assert_eq!(
        partition_headers(Some("ntfs".into()), Some("9223372036854775807".into())).unwrap().1,
        i64::MAX
    );
}

#[test]
fn an_upload_without_its_partition_headers_is_refused() {
    assert_eq!(invalid(partition_headers(None, Some("1".into()))), "missing X-Fstype");
    assert_eq!(invalid(partition_headers(None, None)), "missing X-Fstype");
    for size in [None, Some(""), Some("+"), Some("-"), Some("12a"), Some(" 12"), Some("9223372036854775808"), Some("1_000")] {
        assert_eq!(
            invalid(partition_headers(Some("ext4".into()), size.map(str::to_string))),
            "missing X-Partition-Size"
        );
    }
}
