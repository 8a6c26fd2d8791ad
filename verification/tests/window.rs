//! The disk window: clamped seeks and partition-relative transfers
//! observed against a recording in-memory device.

use redox_fatd::device::{BlockDevice, MemDisk};
use redox_fatd::partition::{DiskPartition, PartitionEntry, SeekFrom};

fn one_mib_entry() -> PartitionEntry {
    // 2048 sectors of 512 bytes: 1_048_576 bytes.
    PartitionEntry { p_type: 0xc, p_lba: 0, p_size: 2048 }
}

#[test]
fn seek_clamps_negative_to_zero() {
    let mut w = DiskPartition::new(MemDisk::new(Vec::new()), one_mib_entry());
    assert_eq!(w.seek(SeekFrom::Start(50)).unwrap(), 50);
    assert_eq!(w.seek(SeekFrom::Current(-100)).unwrap(), 0);
}

#[test]
fn seek_clamps_past_end_to_size() {
    let mut w = DiskPartition::new(MemDisk::new(Vec::new()), one_mib_entry());
    assert_eq!(w.seek(SeekFrom::Start(2_000_000)).unwrap(), 1_048_576);
}

#[test]
fn seek_from_end_and_extremes() {
    let mut w = DiskPartition::new(MemDisk::new(Vec::new()), one_mib_entry());
    assert_eq!(w.seek(SeekFrom::End(-76)).unwrap(), 1_048_500);
    assert_eq!(w.seek(SeekFrom::End(10)).unwrap(), 1_048_576);
    assert_eq!(w.seek(SeekFrom::Current(i64::MIN)).unwrap(), 0);
    assert_eq!(w.seek(SeekFrom::Current(i64::MAX)).unwrap(), 1_048_576);
    assert_eq!(w.seek(SeekFrom::Start(u64::MAX)).unwrap(), 1_048_576);
}

#[test]
fn read_positions_device_at_lba_times_512_plus_cursor() {
    // Device of 2048 bytes; partition starts at sector 1 (byte 512).
    let mut bytes = vec![0u8; 2048];
    for (i, b) in bytes.iter_mut().enumerate() {
        *b = (i % 251) as u8;
    }
    let disk = MemDisk::new(bytes.clone());
    let entry = PartitionEntry { p_type: 0xc, p_lba: 1, p_size: 2 };
    let mut w = DiskPartition::new(disk, entry);
    assert_eq!(w.seek(SeekFrom::Start(10)).unwrap(), 10);
    let mut buf = vec![0u8; 4];
    let n = w.read(&mut buf).unwrap();
    assert_eq!(n, 4);
    // The absolute device offset of the transfer is 1 * 512 + 10.
    assert_eq!(&buf[..], &bytes[522..526]);
}

#[test]
fn write_lands_at_absolute_offset() {
    let disk = MemDisk::new(vec![0u8; 2048]);
    let entry = PartitionEntry { p_type: 0xc, p_lba: 2, p_size: 1 };
    let mut w = DiskPartition::new(disk, entry);
    assert_eq!(w.seek(SeekFrom::Start(3)).unwrap(), 3);
    let n = w.write(&vec![0xAA, 0xBB]).unwrap();
    assert_eq!(n, 2);
    w.flush().unwrap();
    // 2 * 512 + 3 = 1027.
    let disk = w.into_device();
    assert_eq!(disk.byte_at(1027), 0xAA);
    assert_eq!(disk.byte_at(1028), 0xBB);
    assert_eq!(disk.byte_at(1026), 0);
    assert_eq!(disk.byte_at(1029), 0);
    assert_eq!(disk.position(), 1029);
}

#[test]
fn read_does_not_move_the_window_cursor() {
    let disk = MemDisk::new(vec![5u8; 1024]);
    let entry = PartitionEntry { p_type: 0xc, p_lba: 0, p_size: 2 };
    let mut w = DiskPartition::new(disk, entry);
    assert_eq!(w.seek(SeekFrom::Start(7)).unwrap(), 7);
    let mut buf = vec![0u8; 3];
    w.read(&mut buf).unwrap();
    // A relative seek of zero reports the unchanged cursor.
    assert_eq!(w.seek(SeekFrom::Current(0)).unwrap(), 7);
}

#[test]
fn device_read_stops_at_device_end() {
    let mut d = MemDisk::new(vec![1, 2, 3]);
    d.seek_abs(2).unwrap();
    let mut buf = vec![0u8; 8];
    assert_eq!(d.read_at_pos(&mut buf).unwrap(), 1);
    assert_eq!(buf[0], 3);
    d.seek_abs(100).unwrap();
    assert_eq!(d.read_at_pos(&mut buf).unwrap(), 0);
    assert_eq!(d.write_at_pos(&vec![9u8]).unwrap(), 0);
}

#[test]
fn partitions_past_4_gib_are_served() {
    // 2^23 sectors of 512 bytes: a 4 GiB partition, past the 32-bit
    // byte range.
    let entry = PartitionEntry { p_type: 0xc, p_lba: 0, p_size: 8_388_608 };
    let mut w = DiskPartition::new(MemDisk::new(Vec::new()), entry);
    assert_eq!(w.seek(SeekFrom::End(0)).unwrap(), 4_294_967_296);
    assert_eq!(w.seek(SeekFrom::Start(u64::MAX)).unwrap(), 4_294_967_296);
    assert_eq!(w.seek(SeekFrom::Current(-5_000_000_000)).unwrap(), 0);
    // The largest entry a table can name: 2 TiB less one sector.
    let entry = PartitionEntry { p_type: 0xc, p_lba: 0, p_size: u32::MAX };
    let mut w = DiskPartition::new(MemDisk::new(Vec::new()), entry);
    assert_eq!(w.seek(SeekFrom::End(0)).unwrap(), u32::MAX as u64 * 512);
}
