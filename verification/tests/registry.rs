use imaged::domain::task::{Task, TaskType};
use imaged::registry::{cancel_event_for, task_event_for, HostConnectionEvent, HostTable};
use imaged::shared::error::AppError;
use imaged::shared::types::{ServerEvent, TaskType as AgentTaskType};
use imaged::timestamp::Timestamp;

#[test]
fn register_lists_the_host_and_reports_a_connect_event() {
    let mut table: HostTable<&str> = HostTable::new();
    let (generation, event) = table.register(4, "chan-4").unwrap();
    assert_eq!(generation, 0);
    assert_eq!(event, HostConnectionEvent::new(4, true));
    assert!(table.is_connected(4));
    assert_eq!(table.sender(4), Some(&"chan-4"));
    assert_eq!(table.get_current_state(), vec![HostConnectionEvent { id: 4, connected: true }]);
}

#[test]
fn a_duplicate_register_is_rejected_without_a_second_connect_event() {
    let mut table: HostTable<&str> = HostTable::new();
    table.register(4, "first").unwrap();
    match table.register(4, "second") {
        Err(AppError::FailedPrecondition(m)) => assert_eq!(m, "host already connected"),
        other => panic!("unexpected {other:?}"),
    }
    assert_eq!(table.sender(4), Some(&"first"));
    assert_eq!(table.next_generation(), 1);
}

#[test]
fn a_stale_registration_drop_does_not_evict_a_newer_registration_for_the_same_host() {
    let mut table: HostTable<&str> = HostTable::new();
    let (old_generation, _) = table.register(4, "old").unwrap();
    assert_eq!(table.deregister(4), Some(HostConnectionEvent::new(4, false)));
    let (new_generation, _) = table.register(4, "new").unwrap();
    assert!(new_generation > old_generation);
    assert_eq!(table.release(4, old_generation), None);
    assert_eq!(table.sender(4), Some(&"new"));
    assert_eq!(table.release(4, new_generation), Some(HostConnectionEvent::new(4, false)));
    assert!(!table.is_connected(4));
}

#[test]
fn deregister_removes_the_host_and_is_a_noop_for_unknown_ids() {
    let mut table: HostTable<&str> = HostTable::new();
    table.register(1, "a").unwrap();
    table.register(2, "b").unwrap();
    assert_eq!(table.deregister(1), Some(HostConnectionEvent::new(1, false)));
    assert_eq!(table.deregister(99), None);
    assert_eq!(table.get_current_state(), vec![HostConnectionEvent::new(2, true)]);
}

#[test]
fn send_and_cancel_for_an_absent_host_find_no_channel() {
    let table: HostTable<&str> = HostTable::new();
    assert_eq!(table.sender(3), None);
    assert!(table.get_current_state().is_empty());
}

#[test]
fn the_events_sent_to_a_host_carry_the_task_or_its_cancellation() {
    let task = Task {
        id: 6,
        task_type: TaskType::Multicast,
        hosts: Vec::new(),
        image_id: Some(2),
        image_name: None,
        image_deleted: false,
        created_at: Timestamp::new(0, 0),
    };
    match task_event_for(&task) {
        ServerEvent::Task(t) => {
            assert_eq!(t.id, 6);
            assert_eq!(t.task_type, AgentTaskType::Multicast);
            assert_eq!(t.image_id, Some(2));
        }
        other => panic!("unexpected {other:?}"),
    }
    assert_eq!(cancel_event_for(6), ServerEvent::Cancel(6));
}

#[test]
fn every_connected_host_is_listed_once() {
    let mut table: HostTable<u8> = HostTable::new();
    for id in [5, 3, 9] {
        table.register(id, 0).unwrap();
    }
    let mut ids: Vec<i64> = table.get_current_state().iter().map(|e| e.id).collect();
    ids.sort();
    assert_eq!(ids, vec![3, 5, 9]);
}

#[test]
fn cleaning_up_a_connection_twice_changes_nothing_the_second_time() {
    let mut table: HostTable<&str> = HostTable::new();
    let (generation, _) = table.register(8, "chan").unwrap();
    assert_eq!(table.release(8, generation), Some(HostConnectionEvent::new(8, false)));
    assert_eq!(table.release(8, generation), None);
    assert!(!table.is_connected(8));
}

#[test]
fn a_reconnect_displaces_the_earlier_connection() {
    let mut table: HostTable<&str> = HostTable::new();
    let (old_generation, _) = table.register(4, "old").unwrap();
    table.register(5, "other").unwrap();
    let (generation, displaced, connected) = table.reconnect(4, "new");
    assert_eq!(generation, 2);
    assert_eq!(displaced, Some(HostConnectionEvent::new(4, false)));
    assert_eq!(connected, HostConnectionEvent::new(4, true));
    assert_eq!(table.sender(4), Some(&"new"));
    assert_eq!(table.sender(5), Some(&"other"));
    assert_eq!(table.release(4, old_generation), None);
    assert_eq!(table.sender(4), Some(&"new"));
}

#[test]
fn a_first_connection_displaces_nothing() {
    let mut table: HostTable<&str> = HostTable::new();
    let (generation, displaced, connected) = table.reconnect(9, "only");
    assert_eq!((generation, displaced, connected), (0, None, HostConnectionEvent::new(9, true)));
    assert!(table.is_connected(9));
}
