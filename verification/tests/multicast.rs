use imaged::domain::host::Host;
use imaged::domain::image::ImagePartition;
use imaged::domain::task::{Task, TaskHost, TaskState, TaskType};
use imaged::multicast::{
    check_multicast_task, interface_address, limiting_receiver, orphaned_multicast_tasks,
    receiver_name, target_names, transfer_plan, transfer_steps, IdleDecision, LimitingFactor, ReceiverNames,
    MulticastSlot, NotifyDecision, TransferStep,
};
use imaged::net::IpAddress;
use imaged::service::image::ImageService;
use imaged::shared::error::AppError;
use imaged::timestamp::Timestamp;

fn groups(text: &str) -> Vec<u16> {
    if text.is_empty() {
        Vec::new()
    } else {
        text.split(':').map(|g| u16::from_str_radix(g, 16).unwrap()).collect()
    }
}

fn ip(text: &str) -> IpAddress {
    if text.contains(':') {
        let text = text.split('%').next().unwrap();
        let (head, tail) = match text.split_once("::") {
            Some((h, t)) => (groups(h), groups(t)),
            None => (groups(text), Vec::new()),
        };
        let mut s = head.clone();
        s.resize(8 - tail.len(), 0);
        s.extend(tail);
        IpAddress::V6(s[0], s[1], s[2], s[3], s[4], s[5], s[6], s[7])
    } else {
        let o: Vec<u8> = text.split('.').map(|b| b.parse().unwrap()).collect();
        IpAddress::V4(o[0], o[1], o[2], o[3])
    }
}

#[test]
fn addresses_are_read_as_octets_or_segments() {
    assert_eq!(ip("10.0.0.2"), IpAddress::V4(10, 0, 0, 2));
    assert_eq!(ip("fe80::1"), IpAddress::V6(0xfe80, 0, 0, 0, 0, 0, 0, 1));
    assert_eq!(ip("::1"), IpAddress::V6(0, 0, 0, 0, 0, 0, 0, 1));
}

fn machine_listing() -> Result<Vec<(String, IpAddress)>, String> {
    local_ip_address::list_afinet_netifas()
        .map(|list| {
            list.into_iter()
                .map(|(name, address)| (name, ip(&address.to_string())))
                .collect()
        })
        .map_err(|e| e.to_string())
}

#[test]
fn the_limiting_factor_is_resolved_to_the_host_holding_the_deploy_up() {
    let receivers = vec![11u64, 22];
    let addresses = ["10.0.0.1:5000", "10.0.0.2:5000"];
    let culprit = limiting_receiver(LimitingFactor::SinkStalled { receiver: 22 }, &receivers);
    assert_eq!(
        culprit.map(|k| addresses[k].to_string()),
        Some("10.0.0.2:5000".to_string())
    );
}

#[test]
fn a_healthy_transfer_blames_no_host() {
    assert!(limiting_receiver(LimitingFactor::Other, &vec![11]).is_none());
}

#[test]
fn a_server_side_bottleneck_blames_no_host() {
    assert!(limiting_receiver(LimitingFactor::Other, &vec![11]).is_none());
}

#[test]
fn a_blamed_receiver_that_left_blames_no_host() {
    assert!(limiting_receiver(LimitingFactor::WindowStalled { blocked_by: 5 }, &vec![11, 22]).is_none());
    assert_eq!(limiting_receiver(LimitingFactor::RateLimited { worst: 11 }, &vec![11, 22]), Some(0));
}

#[test]
fn an_unknown_interface_is_an_error_rather_than_a_silent_default() {
    assert!(interface_address("definitely-not-an-interface", machine_listing()).is_err());
}

#[test]
fn interface_lookup_takes_the_first_ipv4_address_and_reports_failures() {
    let listing = vec![
        ("eth0".to_string(), ip("fe80::1")),
        ("eth1".to_string(), ip("10.0.0.9")),
        ("eth0".to_string(), ip("192.168.1.2")),
        ("eth0".to_string(), ip("192.168.1.3")),
    ];
    assert_eq!(interface_address("eth0", Ok(listing.clone())).unwrap(), (192, 168, 1, 2));
    match interface_address("wlan0", Ok(listing)) {
        Err(AppError::Internal(m)) => assert_eq!(m, "interface wlan0 has no IPv4 address"),
        other => panic!("unexpected {other:?}"),
    }
    match interface_address("eth0", Err("permission denied".to_string())) {
        Err(AppError::Internal(m)) => assert_eq!(m, "failed to list network interfaces: permission denied"),
        other => panic!("unexpected {other:?}"),
    }
}

fn mk_task(id: i64, task_type: TaskType, states: &[TaskState], image_id: Option<i64>) -> Task {
    Task {
        id,
        task_type,
        hosts: states
            .iter()
            .enumerate()
            .map(|(k, s)| TaskHost {
                host_id: k as i64 + 1,
                state: *s,
                error: None,
                started_at: None,
                finished_at: None,
            })
            .collect(),
        image_id,
        image_name: None,
        image_deleted: false,
        created_at: Timestamp::new(0, 0),
    }
}

#[test]
fn the_progress_log_names_receivers_by_host_instead_of_a_bare_address() {
    let hosts = vec![
        Host::new(7, "lab-07".into(), "aa:bb".into(), 0, Some("10.0.0.1".into())),
        Host::new(9, "lab-09".into(), "cc:dd".into(), 0, Some("10.0.0.9".into())),
    ];
    let mut task = mk_task(1, TaskType::Multicast, &[TaskState::Pending], Some(1));
    task.hosts[0].host_id = 7;
    let addresses = vec![Some(ip("10.0.0.1")), Some(ip("10.0.0.9"))];
    let targets = target_names(&task, &hosts, &addresses);
    assert_eq!(receiver_name(&targets, ip("10.0.0.1")).as_deref(), Some("lab-07 (#7)"));
    assert_eq!(receiver_name(&targets, ip("10.0.0.9")), None);
    assert_eq!(receiver_name(&targets, ip("10.0.0.5")), None);
}

#[test]
fn a_host_without_a_parsable_address_gets_no_name() {
    let hosts = vec![Host::new(1, "lab-01".into(), "aa".into(), 0, Some("not an ip".into()))];
    let task = mk_task(1, TaskType::Multicast, &[TaskState::Pending], Some(1));
    let targets = target_names(&task, &hosts, &vec![None]);
    assert_eq!(receiver_name(&targets, ip("10.0.0.1")), None);
    assert_eq!(receiver_name(&targets, ip("::1")), None);
}

#[test]
fn the_last_name_for_an_address_wins() {
    let hosts = vec![
        Host::new(1, "first".into(), "aa".into(), 0, Some("10.0.0.1".into())),
        Host::new(2, "second".into(), "bb".into(), 0, Some("10.0.0.1".into())),
    ];
    let task = mk_task(1, TaskType::Multicast, &[TaskState::Pending, TaskState::Pending], Some(1));
    let addresses = vec![Some(ip("10.0.0.1")), Some(ip("10.0.0.1"))];
    let targets = target_names(&task, &hosts, &addresses);
    assert_eq!(receiver_name(&targets, ip("10.0.0.1")).as_deref(), Some("second (#2)"));
}

#[test]
fn ipv4_and_ipv6_receivers_are_named_apart() {
    let hosts = vec![
        Host::new(1, "v4".into(), "aa".into(), 0, Some("10.0.0.1".into())),
        Host::new(2, "v6".into(), "bb".into(), 0, Some("::a00:1".into())),
    ];
    let task = mk_task(1, TaskType::Multicast, &[TaskState::Pending, TaskState::Pending], Some(1));
    let addresses = vec![Some(ip("10.0.0.1")), Some(ip("::a00:1"))];
    let targets = target_names(&task, &hosts, &addresses);
    assert_eq!(receiver_name(&targets, ip("10.0.0.1")).as_deref(), Some("v4 (#1)"));
    assert_eq!(receiver_name(&targets, ip("::a00:1")).as_deref(), Some("v6 (#2)"));
    assert_eq!(receiver_name(&targets, ip("fe80::1")), None);
}

#[test]
fn a_name_filed_later_replaces_the_earlier_one() {
    let mut names = ReceiverNames::new();
    names.insert(ip("192.168.1.20"), "old".to_string());
    names.insert(ip("192.168.1.20"), "new".to_string());
    names.insert(ip("192.168.1.21"), "other".to_string());
    assert_eq!(names.get(ip("192.168.1.20")).as_deref(), Some("new"));
    assert_eq!(names.get(ip("192.168.1.21")).as_deref(), Some("other"));
    assert_eq!(names.get(ip("192.168.1.22")), None);
}

#[test]
fn a_notification_spawns_one_worker_and_queues_behind_it() {
    let mut slot: MulticastSlot<&str, u32> = MulticastSlot::new();
    assert!(!slot.is_occupied());
    assert_eq!(slot.notify_new(), NotifyDecision::Spawn { generation: 0 });
    slot.install(5, "worker", 1, 0);
    assert!(slot.is_occupied());
    assert_eq!(slot.notify_new(), NotifyDecision::Queued);
    assert_eq!(slot.finish_if_idle(), IdleDecision::Continue);
    assert_eq!(slot.finish_if_idle(), IdleDecision::Exit);
    assert!(!slot.is_occupied());
    assert_eq!(slot.notify_new(), NotifyDecision::Spawn { generation: 1 });
}

#[test]
fn a_stale_worker_does_not_clear_its_successor() {
    let mut slot: MulticastSlot<&str, u32> = MulticastSlot::new();
    let _ = slot.notify_new();
    slot.install(1, "first", 10, 0);
    assert_eq!(slot.finish_if_idle(), IdleDecision::Exit);
    assert_eq!(slot.notify_new(), NotifyDecision::Spawn { generation: 1 });
    slot.install(2, "second", 20, 1);
    slot.release(0);
    assert!(slot.is_occupied());
    assert_eq!(slot.handle(), Some(&"second"));
    slot.release(1);
    assert!(!slot.is_occupied());
}

#[test]
fn only_the_running_task_can_be_cancelled() {
    let mut slot: MulticastSlot<&str, u32> = MulticastSlot::new();
    let _ = slot.notify_new();
    slot.install(1, "worker", 10, 0);
    slot.begin_task(3, 30);
    assert_eq!(slot.cancel_token(3), Some(&30));
    assert_eq!(slot.cancel_token(1), None);
}

#[test]
fn orphaned_multicast_tasks_are_the_running_multicast_ones() {
    let tasks = vec![
        mk_task(1, TaskType::Multicast, &[TaskState::Running], Some(1)),
        mk_task(2, TaskType::Deploy, &[TaskState::Running], Some(1)),
        mk_task(3, TaskType::Multicast, &[TaskState::Pending], Some(1)),
        mk_task(4, TaskType::Multicast, &[TaskState::Pending, TaskState::Done], Some(1)),
    ];
    assert_eq!(orphaned_multicast_tasks(&tasks), vec![1, 4]);
}

#[test]
fn only_a_pending_multicast_task_with_an_image_is_sent() {
    assert_eq!(
        check_multicast_task(&mk_task(1, TaskType::Multicast, &[TaskState::Pending], Some(8))).unwrap(),
        8
    );
    match check_multicast_task(&mk_task(1, TaskType::Deploy, &[TaskState::Pending], Some(8))) {
        Err(AppError::FailedPrecondition(m)) => assert_eq!(m, "tasktype or state is wrong"),
        other => panic!("unexpected {other:?}"),
    }
    match check_multicast_task(&mk_task(1, TaskType::Multicast, &[TaskState::Pending], None)) {
        Err(AppError::FailedPrecondition(m)) => assert_eq!(m, "image id is not set"),
        other => panic!("unexpected {other:?}"),
    }
}

#[test]
fn the_transfer_plan_sends_the_table_then_each_partition_on_its_port() {
    let svc = ImageService::new("/base".to_string());
    let partitions = vec![
        ImagePartition::new(1, 1, "vfat".into(), 10),
        ImagePartition::new(2, 3, "ext4".into(), 20),
    ];
    let plan = transfer_plan(&svc, 7, &partitions);
    let got: Vec<(String, u16)> = plan.into_iter().map(|e| (e.path, e.port)).collect();
    assert_eq!(
        got,
        vec![
            ("/base/img-7/parttable.bin".to_string(), 50_000),
            ("/base/img-7/p-1.pcl".to_string(), 50_002),
            ("/base/img-7/p-3.pcl".to_string(), 50_006),
        ]
    );
}

#[test]
fn byte_counts_cover_the_whole_task_rather_than_the_file_being_sent() {
    let steps = transfer_steps(4, &vec![1000, 2000, 1000]);
    assert_eq!(
        steps[1],
        TransferStep { task_id: 4, step: 2, steps: 3, bytes_before: 1000, total_bytes: 4000 }
    );
    let bytes = steps[1].bytes(10, 100);
    assert_eq!((bytes.sent, bytes.left), (2000, 2000));
    assert_eq!(steps[2].bytes(0, 100).sent, 3000);
}

#[test]
fn bytes_left_never_go_below_zero_when_a_file_overshoots() {
    let step = TransferStep { task_id: 1, step: 1, steps: 1, bytes_before: 0, total_bytes: 500 };
    let bytes = step.bytes(10, 100);
    assert_eq!((bytes.sent, bytes.left), (1000, 0));
}
