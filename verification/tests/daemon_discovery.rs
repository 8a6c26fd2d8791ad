//! The readiness handshake and the discovery filter, plus the partition
//! locator on plain tables.

use redox_fatd::daemon::{any_mounted, handshake_marker, launcher_exit_code};
use redox_fatd::discovery::{disk_paths, disk_scheme_candidates, disk_scheme_of};
use redox_fatd::errors::TableReadError;
use redox_fatd::partition::{filter_partitions, get_partitions, PartitionEntry};

#[test]
fn no_mount_reports_nonzero_marker_and_exit() {
    // Zero matching partitions anywhere: every outcome is a failure.
    let outcomes = vec![false, false, false];
    let mounted = any_mounted(&outcomes);
    assert!(!mounted);
    let marker = handshake_marker(mounted);
    assert_ne!(marker, 0);
    assert_ne!(launcher_exit_code(marker), 0);
    assert_eq!(launcher_exit_code(marker), 1);
}

#[test]
fn no_devices_at_all_reports_failure() {
    let mounted = any_mounted(&Vec::new());
    assert!(!mounted);
    assert_eq!(handshake_marker(mounted), 1);
}

#[test]
fn one_mount_reports_success_whatever_follows() {
    let outcomes = vec![false, true, false, false];
    let mounted = any_mounted(&outcomes);
    assert!(mounted);
    let marker = handshake_marker(mounted);
    assert_eq!(marker, 0);
    assert_eq!(launcher_exit_code(marker), 0);
}

#[test]
fn launcher_propagates_the_failure_marker() {
    assert_eq!(launcher_exit_code(5), 5);
    assert_ne!(launcher_exit_code(5), 0);
}

#[test]
fn disk_paths_is_a_no_op_without_enumeration() {
    let mut paths = vec![String::from("kept")];
    disk_paths(&mut paths);
    assert_eq!(paths, vec![String::from("kept")]);
}

#[test]
fn scheme_names_are_trimmed_and_filtered() {
    assert_eq!(disk_scheme_of(&b":disk".to_vec()), Some(b"disk:".to_vec()));
    assert_eq!(disk_scheme_of(&b"::disk/0/".to_vec()), Some(b"disk/0:".to_vec()));
    assert_eq!(disk_scheme_of(&b"disk".to_vec()), Some(b"disk:".to_vec()));
    assert_eq!(disk_scheme_of(&b":file".to_vec()), None);
    assert_eq!(disk_scheme_of(&b"dis".to_vec()), None);
    assert_eq!(disk_scheme_of(&b"".to_vec()), None);
    assert_eq!(disk_scheme_of(&b":///".to_vec()), None);
}

#[test]
fn candidates_keep_listing_order_and_skip_bad_entries() {
    let names = vec![
        b":file".to_vec(),
        b":disk".to_vec(),
        b"nope".to_vec(),
        b":disk/1".to_vec(),
    ];
    let out = disk_scheme_candidates(&names);
    assert_eq!(out, vec![b"disk:".to_vec(), b"disk/1:".to_vec()]);
}

#[test]
fn filter_keeps_matching_entries_in_table_order() {
    let table = vec![
        PartitionEntry { p_type: 0x83, p_lba: 1, p_size: 10 },
        PartitionEntry { p_type: 0xc, p_lba: 11, p_size: 20 },
        PartitionEntry { p_type: 0xc, p_lba: 31, p_size: 5 },
        PartitionEntry { p_type: 0x07, p_lba: 36, p_size: 1 },
    ];
    let matched = filter_partitions(&table, 0xc);
    assert_eq!(matched.len(), 2);
    assert_eq!(matched[0], PartitionEntry { p_type: 0xc, p_lba: 11, p_size: 20 });
    assert_eq!(matched[1], PartitionEntry { p_type: 0xc, p_lba: 31, p_size: 5 });
}

#[test]
fn filter_with_no_match_is_empty_not_an_error() {
    let table = vec![PartitionEntry { p_type: 0x83, p_lba: 1, p_size: 10 }];
    assert!(filter_partitions(&table, 0xc).is_empty());
}

#[test]
fn locator_filters_the_parsed_table() {
    let table = vec![
        PartitionEntry { p_type: 0x83, p_lba: 1, p_size: 10 },
        PartitionEntry { p_type: 0xc, p_lba: 11, p_size: 20 },
        PartitionEntry { p_type: 0xc, p_lba: 31, p_size: 5 },
        PartitionEntry { p_type: 0x07, p_lba: 36, p_size: 1 },
    ];
    let matched = get_partitions(Ok(table), 0xc).unwrap();
    assert_eq!(matched.len(), 2);
    assert_eq!(matched[0], PartitionEntry { p_type: 0xc, p_lba: 11, p_size: 20 });
    assert_eq!(matched[1], PartitionEntry { p_type: 0xc, p_lba: 31, p_size: 5 });
}

#[test]
fn failed_table_read_becomes_a_table_read_error() {
    let r = get_partitions(Err(String::from("device unreadable")), 0xc);
    assert_eq!(r, Err(TableReadError { msg: String::from("device unreadable") }));
}

#[test]
fn unreadable_device_reports_a_table_read_error() {
    // Drive the real table parser against a path that cannot be opened,
    // and hand its outcome to the locator, as the daemon does.
    let parsed: Result<Vec<PartitionEntry>, String> =
        mbr::partition::read_partitions(std::path::PathBuf::from("/no/such/device/anywhere"))
            .map(|v| {
                v.into_iter()
                    .map(|p| PartitionEntry { p_type: p.p_type, p_lba: p.p_lba, p_size: p.p_size })
                    .collect()
            })
            .map_err(|e| e.to_string());
    match get_partitions(parsed, 0xc) {
        Err(TableReadError { msg }) => assert!(!msg.is_empty()),
        Ok(_) => panic!("a missing device must not yield a table"),
    }
}
