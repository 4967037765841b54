use imaged::domain::host::{default_host_name, stored_disk_size, Host};
use imaged::domain::group::Group;
use imaged::events::{append_chunk, take_buffered_event, take_event_data};
use imaged::harness::unique_mac;
use imaged::wake::{wake_packets, wake_targets};
use std::collections::HashSet;

#[test]
fn unique_mac_counts_up_in_the_low_octets() {
    let mut counter = 1u64;
    assert_eq!(unique_mac(&mut counter), "02:00:00:00:00:01");
    assert_eq!(counter, 2);
    let mut counter = 0x01_02_ffu64;
    assert_eq!(unique_mac(&mut counter), "02:00:00:01:02:ff");
    assert_eq!(unique_mac(&mut counter), "02:00:00:01:03:00");
}

#[test]
fn unique_mac_keeps_only_the_low_24_bits_and_wraps_the_counter() {
    let mut counter = u64::MAX;
    assert_eq!(unique_mac(&mut counter), "02:00:00:ff:ff:ff");
    assert_eq!(counter, 0);
}

#[test]
fn successive_macs_are_distinct() {
    let mut counter = 1u64;
    let macs: HashSet<String> = (0..1000).map(|_| unique_mac(&mut counter)).collect();
    assert_eq!(macs.len(), 1000);
}

#[test]
fn an_event_is_the_joined_data_of_a_block() {
    let mut buf = b"event: x\ndata: {\"a\":\ndata:1}\n\nrest".to_vec();
    assert_eq!(take_event_data(&mut buf).as_deref(), Some("{\"a\":\n1}"));
    assert_eq!(buf, b"rest".to_vec());
}

#[test]
fn blocks_without_data_are_skipped_and_an_incomplete_block_waits() {
    let mut buf = b": keep-alive\n\ndata: 7\n\ndata: 8".to_vec();
    assert_eq!(take_event_data(&mut buf).as_deref(), Some("7"));
    assert_eq!(take_event_data(&mut buf), None);
    assert_eq!(buf, b"data: 8".to_vec());
    buf.extend_from_slice(b"\n\n");
    assert_eq!(take_event_data(&mut buf).as_deref(), Some("8"));
    assert!(buf.is_empty());
}

#[test]
fn only_one_space_after_the_field_name_is_dropped() {
    let mut buf = b"data:  two\n\n".to_vec();
    assert_eq!(take_event_data(&mut buf).as_deref(), Some(" two"));
}

#[test]
fn an_empty_first_payload_does_not_start_a_new_line() {
    let mut buf = b"data:\ndata: x\n\n".to_vec();
    assert_eq!(take_event_data(&mut buf).as_deref(), Some("x"));
}

#[test]
fn the_data_of_an_event_is_read_as_json() {
    let mut buf = b"data: {\"id\": 3}\n\ndata: not json\n\n".to_vec();
    let value = take_buffered_event(&mut buf).unwrap();
    assert_eq!(value["id"], 3);
    assert!(take_buffered_event(&mut buf).is_none());
    assert!(buf.is_empty());
}

fn host(id: i64, mac: &str) -> Host {
    Host::new(id, format!("h{id}"), mac.to_string(), 0, None)
}

#[test]
fn wake_on_lan_targets_the_wanted_hosts_with_colon_separated_macs() {
    let hosts = vec![host(1, "aa-bb-cc-dd-ee-01"), host(2, "aa:bb:cc:dd:ee:02"), host(3, "aa-bb-cc-dd-ee-03")];
    assert_eq!(
        wake_targets(&hosts, &vec![3, 1]),
        vec!["aa:bb:cc:dd:ee:01".to_string(), "aa:bb:cc:dd:ee:03".to_string()]
    );
    assert!(wake_targets(&hosts, &Vec::new()).is_empty());
}

#[test]
fn a_new_host_is_named_after_its_mac() {
    assert_eq!(default_host_name("aa:bb:cc"), "aa-bb-cc");
    assert_eq!(stored_disk_size(u64::MAX), -1);
    let h = Host::from_row(1, "n".into(), "m".into(), -1, None);
    assert_eq!(h.disk_size, u64::MAX);
    let g = Group::new(3, "lab".into());
    assert_eq!((g.id, g.name.as_str()), (3, "lab"));
}

#[test]
fn bytes_arriving_after_a_complete_event_do_not_change_it() {
    let mut whole = b"data: 1\n\ndata: 2".to_vec();
    let mut first = b"data: 1\n\n".to_vec();
    assert_eq!(take_event_data(&mut whole), take_event_data(&mut first));
    first.extend_from_slice(b"data: 2");
    assert_eq!(whole, first);
}

#[test]
fn carriage_returns_are_dropped_as_chunks_arrive() {
    let mut buf = b"data: 1".to_vec();
    append_chunk(&mut buf, b"\r\n\r\ndata: 2\r\n");
    assert_eq!(buf, b"data: 1\n\ndata: 2\n".to_vec());
    assert_eq!(take_event_data(&mut buf).as_deref(), Some("1"));
}

fn magic(mac: [u8; 6]) -> Vec<u8> {
    let mut packet = vec![0xffu8; 6];
    for _ in 0..16 {
        packet.extend_from_slice(&mac);
    }
    packet
}

#[test]
fn wake_on_lan_builds_the_magic_packet_of_each_wanted_host() {
    let hosts = vec![host(1, "01-02-03-04-05-06"), host(2, "aa:bb:cc:dd:ee:02"), host(3, "0A:0b:0C:0d:0E:ff")];
    let packets = wake_packets(&hosts, &vec![3, 1]);
    assert_eq!(packets.len(), 2);
    assert_eq!(packets[0].0, "01:02:03:04:05:06");
    assert_eq!(packets[0].1, Some(magic([1, 2, 3, 4, 5, 6])));
    assert_eq!(packets[1].0, "0A:0b:0C:0d:0E:ff");
    assert_eq!(packets[1].1, Some(magic([0x0a, 0x0b, 0x0c, 0x0d, 0x0e, 0xff])));
    assert_eq!(packets[1].1.as_ref().map(|p| p.len()), Some(102));
}

#[test]
fn a_malformed_mac_gets_no_wake_packet() {
    let hosts = vec![
        host(1, "not a mac"),
        host(2, "zz:bb:cc:dd:ee:02"),
        host(3, "0102030405:060708"),
        host(4, "01:02:03:04:05:06:07"),
        host(5, "aa:bb:cc:dd:ee:0"),
    ];
    let packets = wake_packets(&hosts, &vec![1, 2, 3, 4, 5]);
    assert_eq!(packets.len(), 5);
    assert!(packets.iter().all(|(_, p)| p.is_none()));
    assert_eq!(packets[2].0, "0102030405:060708");
}

#[test]
fn a_mac_with_uneven_groups_is_read_as_wakey_reads_it() {
    let hosts = vec![host(1, "0102:03:04:05::06"), host(2, "010203040506:::::"), host(3, "01:020:3:04:05:06")];
    let packets = wake_packets(&hosts, &vec![1, 2, 3]);
    assert_eq!(packets[0].1, Some(magic([1, 2, 3, 4, 5, 6])));
    assert_eq!(packets[1].1, Some(magic([1, 2, 3, 4, 5, 6])));
    assert_eq!(packets[2].1, None);
}

#[test]
fn the_json_of_an_event_spans_its_data_lines() {
    let mut buf = b": keep-alive\n\ndata: [1,\ndata: \"two\"]\n\nrest".to_vec();
    let value = take_buffered_event(&mut buf).unwrap();
    assert_eq!(value[0], 1);
    assert_eq!(value[1], "two");
    assert_eq!(value.as_array().map(|a| a.len()), Some(2));
    assert_eq!(buf, b"rest".to_vec());
}
