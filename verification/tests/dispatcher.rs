//! The resource table and dispatcher: id allocation, duplication,
//! closing, and the per-operation contracts.

use redox_fatd::errors::OpError;
use redox_fatd::resource::{DirResource, Stat, TimeSpec, SEEK_CUR, SEEK_END, SEEK_SET};
use redox_fatd::scheme::FileScheme;

fn listing() -> Vec<u8> {
    b"one\ntwo\nthree\n".to_vec()
}

#[test]
fn ids_are_unique_and_monotonic() {
    let mut s = FileScheme::new(String::from("fat"), ());
    assert_eq!(s.name(), "fat");
    let a = s.open_dir(String::from("a"), 1, Some(listing()), 0);
    let b = s.open_dir(String::from("b"), 2, Some(listing()), 0);
    let c = s.open_dir(String::from("c"), 3, Some(listing()), 0);
    assert_ne!(a, b);
    assert_ne!(b, c);
    assert_ne!(a, c);
    assert!(a < b && b < c);
}

#[test]
fn id_not_reused_while_open() {
    let mut s = FileScheme::new(String::from("fat"), ());
    let a = s.open_dir(String::from("a"), 1, Some(listing()), 0);
    s.close(a).unwrap();
    // The allocator is monotonic: even after a close, a fresh open never
    // hands the closed id out again.
    let b = s.open_dir(String::from("b"), 2, Some(listing()), 0);
    assert_ne!(a, b);
}

#[test]
fn read_serves_snapshot_and_advances_cursor() {
    let mut s = FileScheme::new(String::from("fat"), ());
    let id = s.open_dir(String::from("/"), 0, Some(listing()), 0);
    let mut buf = vec![0u8; 4];
    assert_eq!(s.read(id, &mut buf).unwrap(), 4);
    assert_eq!(&buf[..], b"one\n");
    assert_eq!(s.read(id, &mut buf).unwrap(), 4);
    assert_eq!(&buf[..], b"two\n");
    let mut rest = vec![0u8; 32];
    assert_eq!(s.read(id, &mut rest).unwrap(), 6);
    assert_eq!(&rest[..6], b"three\n");
    // At the end of the snapshot a read serves zero bytes.
    assert_eq!(s.read(id, &mut rest).unwrap(), 0);
}

#[test]
fn seek_modes_and_clamping() {
    let mut s = FileScheme::new(String::from("fat"), ());
    let id = s.open_dir(String::from("/"), 0, Some(listing()), 0);
    let len = listing().len();
    assert_eq!(s.seek(id, 5, SEEK_SET).unwrap(), 5);
    assert_eq!(s.seek(id, -2, SEEK_CUR).unwrap(), 3);
    assert_eq!(s.seek(id, -4, SEEK_END).unwrap(), len - 4);
    assert_eq!(s.seek(id, -1000, SEEK_CUR).unwrap(), 0);
    assert_eq!(s.seek(id, 1000, SEEK_SET).unwrap(), len);
    assert_eq!(s.seek(id, 0, 77), Err(OpError::InvalidArgument));
}

#[test]
fn dup_is_independent_with_identical_content() {
    let mut s = FileScheme::new(String::from("fat"), ());
    let id = s.open_dir(String::from("/"), 0, Some(listing()), 0);
    assert_eq!(s.seek(id, 4, SEEK_SET).unwrap(), 4);
    let dup = s.dup(id).unwrap();
    assert_ne!(dup, id);

    // Seeking and reading the duplicate does not move the original.
    assert_eq!(s.seek(dup, 8, SEEK_SET).unwrap(), 8);
    let mut buf = vec![0u8; 2];
    assert_eq!(s.read(dup, &mut buf).unwrap(), 2);
    assert_eq!(s.seek(id, 0, SEEK_CUR).unwrap(), 4);

    // Both observe the same underlying content.
    let mut a = vec![0u8; 14];
    let mut b = vec![0u8; 14];
    s.seek(id, 0, SEEK_SET).unwrap();
    s.seek(dup, 0, SEEK_SET).unwrap();
    assert_eq!(s.read(id, &mut a).unwrap(), 14);
    assert_eq!(s.read(dup, &mut b).unwrap(), 14);
    assert_eq!(a, b);
}

#[test]
fn permission_operations_succeed_without_effect() {
    let mut s = FileScheme::new(String::from("fat"), ());
    let id = s.open_dir(String::from("/"), 7, Some(listing()), 42);
    s.seek(id, 6, SEEK_SET).unwrap();

    assert_eq!(s.fchmod(id, 0o755).unwrap(), 0);
    assert_eq!(s.fchown(id, 1, 2).unwrap(), 0);

    // Observable state is untouched: the cursor still stands at 6.
    assert_eq!(s.seek(id, 0, SEEK_CUR).unwrap(), 6);
}

#[test]
fn stat_reports_the_resource_metadata() {
    let mut s = FileScheme::new(String::from("fat"), ());
    let id = s.open_dir(String::from("/music"), 7, Some(listing()), 42);
    s.seek(id, 6, SEEK_SET).unwrap();

    let mut st = Stat {
        st_dev: 9,
        st_ino: 9,
        st_mode: 9,
        st_nlink: 9,
        st_uid: 9,
        st_gid: 9,
        st_size: 9,
        st_mtime: 9,
        st_mtime_nsec: 9,
        st_ctime: 9,
        st_ctime_nsec: 9,
    };
    assert_eq!(s.stat(id, &mut st).unwrap(), 0);
    assert_eq!(st.st_ino, 7);
    assert_eq!(st.st_uid, 42);
    assert_eq!(st.st_size, listing().len() as u64);
    assert_eq!(st.st_nlink, 1);
    // The served format carries no permission bits or timestamps.
    assert_eq!(st.st_mode, 0);
    assert_eq!(st.st_mtime, 0);

    // Filling the caller's record altered nothing observable.
    assert_eq!(s.seek(id, 0, SEEK_CUR).unwrap(), 6);
}

#[test]
fn table_owns_the_mounted_filesystem() {
    // A real engine instance over an in-memory volume, owned by the
    // table: the listing is materialized through the table's own
    // exclusive access to it.
    let mut img = std::io::Cursor::new(vec![0u8; 1 << 20]);
    fatfs::format_volume(&mut img, fatfs::FormatVolumeOptions::new()).unwrap();
    let fs = fatfs::FileSystem::new(img, fatfs::FsOptions::new()).unwrap();
    let mut s = FileScheme::new(String::from("fat"), fs);

    let mut root_listing: Vec<u8> = Vec::new();
    for entry in s.filesystem().root_dir().iter().flatten() {
        root_listing.extend_from_slice(entry.file_name().as_bytes());
        root_listing.push(b'\n');
    }
    // A freshly formatted volume has an empty root directory.
    assert!(root_listing.is_empty());
    let id = s.open_dir(String::from("fat:/"), 0, Some(root_listing), 0);
    let mut buf = vec![0u8; 4];
    assert_eq!(s.read(id, &mut buf).unwrap(), 0);
}

#[test]
fn unsupported_operations_on_a_directory() {
    let mut s = FileScheme::new(String::from("fat"), ());
    let id = s.open_dir(String::from("/"), 0, Some(listing()), 0);
    assert_eq!(s.write(id, &vec![1, 2, 3]), Err(OpError::Unsupported));
    assert_eq!(s.truncate(id, 0), Err(OpError::Unsupported));
    assert_eq!(s.fcntl(id, 0, 0), Err(OpError::Unsupported));
    let times = vec![TimeSpec { tv_sec: 0, tv_nsec: 0 }];
    assert_eq!(s.utimens(id, &times), Err(OpError::Unsupported));
    // None of those moved the cursor.
    assert_eq!(s.seek(id, 0, SEEK_CUR).unwrap(), 0);
}

#[test]
fn stat_only_open_without_listing() {
    let mut s = FileScheme::new(String::from("fat"), ());
    let id = s.open_dir(String::from("/"), 0, None, 0);
    let mut buf = vec![0u8; 4];
    assert_eq!(s.read(id, &mut buf), Err(OpError::IsDirectory));
    assert_eq!(s.seek(id, 0, SEEK_SET), Err(OpError::Unsupported));
}

#[test]
fn path_is_served_and_truncated_to_the_buffer() {
    let mut s = FileScheme::new(String::from("fat"), ());
    let id = s.open_dir(String::from("fat:/music"), 0, Some(listing()), 0);
    let mut buf = vec![0u8; 32];
    assert_eq!(s.path(id, &mut buf).unwrap(), 10);
    assert_eq!(&buf[..10], b"fat:/music");
    let mut small = vec![0u8; 4];
    assert_eq!(s.path(id, &mut small).unwrap(), 4);
    assert_eq!(&small[..], b"fat:");
}

#[test]
fn every_operation_on_a_closed_id_fails_bad_handle() {
    let mut s = FileScheme::new(String::from("fat"), ());
    let id = s.open_dir(String::from("/"), 0, Some(listing()), 0);
    assert_eq!(s.close(id).unwrap(), 0);

    let mut buf = vec![0u8; 4];
    let mut st = Stat {
        st_dev: 0,
        st_ino: 0,
        st_mode: 0,
        st_nlink: 0,
        st_uid: 0,
        st_gid: 0,
        st_size: 0,
        st_mtime: 0,
        st_mtime_nsec: 0,
        st_ctime: 0,
        st_ctime_nsec: 0,
    };
    assert_eq!(s.read(id, &mut buf), Err(OpError::BadHandle));
    assert_eq!(s.write(id, &vec![1]), Err(OpError::BadHandle));
    assert_eq!(s.seek(id, 0, SEEK_SET), Err(OpError::BadHandle));
    assert_eq!(s.fchmod(id, 0), Err(OpError::BadHandle));
    assert_eq!(s.fchown(id, 0, 0), Err(OpError::BadHandle));
    assert_eq!(s.fcntl(id, 0, 0), Err(OpError::BadHandle));
    assert_eq!(s.path(id, &mut buf), Err(OpError::BadHandle));
    assert_eq!(s.stat(id, &mut st), Err(OpError::BadHandle));
    assert_eq!(s.truncate(id, 0), Err(OpError::BadHandle));
    assert_eq!(s.utimens(id, &Vec::new()), Err(OpError::BadHandle));
    assert_eq!(s.dup(id), Err(OpError::BadHandle));
    assert_eq!(s.close(id), Err(OpError::BadHandle));
}

#[test]
fn dir_resource_standalone() {
    let mut r = DirResource::new(String::from("fat:/"), 7, Some(b"abc".to_vec()), 3);
    assert_eq!(r.block(), 7);
    let mut buf = vec![0u8; 2];
    assert_eq!(r.read(&mut buf).unwrap(), 2);
    assert_eq!(&buf[..], b"ab");
    let copy = r.dup();
    let mut rest = vec![0u8; 8];
    assert_eq!(r.read(&mut rest).unwrap(), 1);
    assert_eq!(rest[0], b'c');
    // The copy kept its own cursor at the duplication point.
    let mut again = vec![0u8; 8];
    let mut copy = copy;
    assert_eq!(copy.read(&mut again).unwrap(), 1);
    assert_eq!(again[0], b'c');
}
