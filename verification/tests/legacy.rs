use imaged::server::image::ImageStatus;
use imaged::server::task::{TaskState, TaskType};
use imaged::shared::error::AppError;
use imaged::shared::types::TaskType as AgentTaskType;

#[test]
fn a_fault_keeps_its_reason_apart_from_the_status_name() {
    assert_eq!(ImageStatus::Ready.into_parts(), ("ready".to_string(), None));
    assert_eq!(
        ImageStatus::Faulted("disk".into()).into_parts(),
        ("faulted".to_string(), Some("disk".to_string()))
    );
}

#[test]
fn a_fault_is_displayed_with_its_reason_and_read_back() {
    let text = ImageStatus::Faulted("io error".into()).to_string();
    assert_eq!(text, "faulted(io error)");
    match ImageStatus::from_text(text) {
        ImageStatus::Faulted(m) => assert_eq!(m, "io error"),
        other => panic!("unexpected {other:?}"),
    }
    assert!(matches!(ImageStatus::from_text("CAPTURING".into()), ImageStatus::Capturing));
}

#[test]
fn an_unreadable_status_becomes_an_invalid_status_fault() {
    match ImageStatus::from_text("bogus".into()) {
        ImageStatus::Faulted(m) => assert_eq!(m, "invalid status"),
        other => panic!("unexpected {other:?}"),
    }
}

#[test]
fn legacy_tasks_know_only_capture_and_deploy_and_five_states() {
    assert_eq!(TaskType::from_string("Deploy".into()).unwrap(), TaskType::Deploy);
    assert!(matches!(TaskType::from_string("multicast".into()), Err(AppError::Internal(_))));
    assert_eq!(TaskState::from_string("CANCELLED".into()).unwrap(), TaskState::Cancelled);
    assert!(matches!(TaskState::from_string("partial".into()), Err(AppError::Internal(_))));
    assert!(TaskState::Pending.is_pending());
    assert!(!TaskState::Pending.is_running());
    assert_eq!(AgentTaskType::from(TaskType::Capture), AgentTaskType::Capture);
}
