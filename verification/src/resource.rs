//! Open resources: what the dispatcher hands out for an open request.
//!
//! A directory resource carries the resource's canonical path, the
//! filesystem block it came from, the owning user id, a cursor, and —
//! when the open materialized one — a byte snapshot of the directory
//! listing. All its operations serve that already-materialized in-memory
//! state; none goes back to the mounted filesystem. The served format
//! carries no permission bits, so the permission operations succeed
//! without changing anything.

use vstd::prelude::*;
use vstd::string::StrSliceExecFns;
use vstd::string::StringSliceAdditionalSpecFns;

use crate::errors::OpError;

verus! {

/// Seek mode: an absolute offset from the start of the snapshot.
pub const SEEK_SET: usize = 0;

/// Seek mode: a signed offset from the current cursor.
pub const SEEK_CUR: usize = 1;

/// Seek mode: a signed offset from the end of the snapshot.
pub const SEEK_END: usize = 2;

/// Resource metadata as a stat request reports it.
#[derive(Clone, Copy, Debug, PartialEq, Eq, Structural)]
pub struct Stat {
    /// Device number.
    pub st_dev: u64,
    /// Resource number.
    pub st_ino: u64,
    /// Permission bits and kind.
    pub st_mode: u16,
    /// Link count.
    pub st_nlink: u32,
    /// Owning user id.
    pub st_uid: u32,
    /// Owning group id.
    pub st_gid: u32,
    /// Size in bytes.
    pub st_size: u64,
    /// Modification time, seconds.
    pub st_mtime: u64,
    /// Modification time, nanoseconds.
    pub st_mtime_nsec: u32,
    /// Creation time, seconds.
    pub st_ctime: u64,
    /// Creation time, nanoseconds.
    pub st_ctime_nsec: u32,
}

/// One timestamp of a times-update request.
#[derive(Clone, Copy, Debug, PartialEq, Eq, Structural)]
pub struct TimeSpec {
    /// Seconds.
    pub tv_sec: i64,
    /// Nanoseconds.
    pub tv_nsec: i32,
}

/// The mathematical content of a directory resource.
pub ghost struct DirView {
    /// The canonical path the resource was opened under.
    pub path: Seq<char>,
    /// The filesystem block the directory starts at.
    pub block: u64,
    /// The materialized listing snapshot, if the open produced one.
    pub data: Option<Seq<u8>>,
    /// The cursor into the snapshot.
    pub seek: int,
    /// The user id the resource was opened for.
    pub uid: u32,
}

/// An open directory resource: a materialized listing snapshot served
/// from memory, never re-read from the mounted filesystem after open.
pub struct DirResource {
    path: String,
    block: u64,
    data: Option<Vec<u8>>,
    seek: usize,
    uid: u32,
}

impl View for DirResource {
    type V = DirView;

    closed spec fn view(&self) -> DirView {
        DirView {
            path: self.path@,
            block: self.block,
            data: match self.data {
                Some(ref v) => Some(v@),
                None => None,
            },
            seek: self.seek as int,
            uid: self.uid,
        }
    }
}

/// The bytes a path request serves for a resource path.
pub open spec fn spec_path_bytes(path: Seq<char>) -> Seq<u8> {
    vstd::utf8::encode_utf8(path)
}

/// The metadata a stat request reports for a resource: the filesystem
/// block it came from, its owning user id, and the snapshot's byte size.
/// The served format carries no permission bits and no tracked
/// timestamps or link structure beyond the resource itself, so those
/// fields report their defaults.
pub open spec fn spec_stat_of(v: DirView) -> Stat {
    Stat {
        st_dev: 0,
        st_ino: v.block,
        st_mode: 0,
        st_nlink: 1,
        st_uid: v.uid,
        st_gid: 0,
        st_size: match v.data {
            Some(d) => d.len() as u64,
            None => 0u64,
        },
        st_mtime: 0,
        st_mtime_nsec: 0,
        st_ctime: 0,
        st_ctime_nsec: 0,
    }
}

/// `v` with its cursor moved to `c` and everything else unchanged.
pub open spec fn spec_dir_with_seek(v: DirView, c: int) -> DirView {
    DirView { path: v.path, block: v.block, data: v.data, seek: c, uid: v.uid }
}

/// The cursor a seek request on `v` asks for, before clamping.
pub open spec fn spec_dir_seek_target(v: DirView, offset: int, whence: usize) -> int {
    let len = v.data->Some_0.len() as int;
    if whence == SEEK_SET {
        offset
    } else if whence == SEEK_CUR {
        v.seek + offset
    } else {
        len + offset
    }
}

impl DirResource {
    /// The cursor never passes the end of the snapshot.
    pub open spec fn wf(self) -> bool {
        &&& self@.data matches Some(d) ==> self@.seek <= d.len()
        &&& self@.data is None ==> self@.seek == 0
        &&& 0 <= self@.seek
    }

    /// A freshly opened directory resource with its cursor at zero.
    pub fn new(path: String, block: u64, data: Option<Vec<u8>>, uid: u32) -> (r: DirResource)
        ensures
            r.wf(),
            r@.path == path@,
            r@.block == block,
            r@.seek == 0,
            r@.uid == uid,
            data matches Some(v) ==> r@.data == Some(v@),
            data is None ==> r@.data is None,
    {
        DirResource { path, block, data, seek: 0, uid }
    }

    /// The filesystem block this resource starts at.
    pub fn block(&self) -> (r: u64)
        ensures
            r == self@.block,
    {
        self.block
    }

    /// An independent resource over the same content: same path, block,
    /// snapshot, owner and cursor, but from here on the two cursors move
    /// separately.
    pub fn dup(&self) -> (r: DirResource)
        ensures
            r@ == self@,
    {
        DirResource {
            path: self.path.clone(),
            block: self.block,
            data: match &self.data {
                Some(v) => Some(v.clone()),
                None => None,
            },
            seek: self.seek,
            uid: self.uid,
        }
    }

    /// Serves bytes of the materialized snapshot from the cursor into the
    /// front of `buf`, stopping at the snapshot's end, and advances the
    /// cursor by exactly the bytes served. Without a snapshot the request
    /// names a directory with no listing and is rejected.
    pub fn read(&mut self, buf: &mut Vec<u8>) -> (r: Result<usize, OpError>)
        requires
            old(self).wf(),
        ensures
            final(self).wf(),
            final(self)@.path == old(self)@.path,
            final(self)@.block == old(self)@.block,
            final(self)@.data == old(self)@.data,
            final(self)@.uid == old(self)@.uid,
            final(buf)@.len() == old(buf)@.len(),
            old(self)@.data is None ==> r == Err::<usize, OpError>(OpError::IsDirectory)
                && final(self)@ == old(self)@
                && final(buf)@ == old(buf)@,
            old(self)@.data matches Some(d) ==> {
                let n = vstd::math::min(old(buf)@.len() as int, d.len() - old(self)@.seek);
                &&& r == Ok::<usize, OpError>(n as usize)
                &&& final(self)@.seek == old(self)@.seek + n
                &&& forall|j: int| 0 <= j < n ==> final(buf)@[j] == d[old(self)@.seek + j]
                &&& forall|j: int| n <= j < final(buf)@.len() ==> final(buf)@[j] == old(buf)@[j]
            },
    {
        let data = match &self.data {
            Some(d) => d,
            None => {
                return Err(OpError::IsDirectory);
            },
        };
        let mut i: usize = 0;
        while i < buf.len() && self.seek < data.len()
            invariant
                0 <= i <= buf@.len(),
                buf@.len() == old(buf)@.len(),
                self@.path == old(self)@.path,
                self@.block == old(self)@.block,
                self@.data == old(self)@.data,
                self@.uid == old(self)@.uid,
                self@.data == Some(data@),
                self.seek == old(self)@.seek + i,
                self.seek <= data@.len(),
                forall|j: int| 0 <= j < i ==> buf@[j] == data@[old(self)@.seek + j],
                forall|j: int| i <= j < buf@.len() ==> buf@[j] == old(buf)@[j],
            decreases buf@.len() - i,
        {
            let b = data[self.seek];
            buf.set(i, b);
            i = i + 1;
            self.seek = self.seek + 1;
        }
        Ok(i)
    }

    /// A directory snapshot is read-only: every write request is refused
    /// and nothing changes.
    pub fn write(&mut self, buf: &Vec<u8>) -> (r: Result<usize, OpError>)
        ensures
            final(self)@ == old(self)@,
            r == Err::<usize, OpError>(OpError::Unsupported),
    {
        let _ = buf;
        Err(OpError::Unsupported)
    }

    /// Moves the cursor within the snapshot. The target is clamped, not
    /// rejected, into `[0, snapshot length]`; an unknown seek mode is
    /// rejected; a resource without a snapshot refuses every seek.
    pub fn seek(&mut self, offset: isize, whence: usize) -> (r: Result<usize, OpError>)
        requires
            old(self).wf(),
        ensures
            final(self).wf(),
            final(self)@.path == old(self)@.path,
            final(self)@.block == old(self)@.block,
            final(self)@.data == old(self)@.data,
            final(self)@.uid == old(self)@.uid,
            old(self)@.data is None ==> r == Err::<usize, OpError>(OpError::Unsupported)
                && final(self)@ == old(self)@,
            old(self)@.data matches Some(d) ==> {
                if whence == SEEK_SET || whence == SEEK_CUR || whence == SEEK_END {
                    let c = crate::partition::spec_clamp(
                        spec_dir_seek_target(old(self)@, offset as int, whence),
                        d.len() as int,
                    );
                    &&& r == Ok::<usize, OpError>(c as usize)
                    &&& final(self)@.seek == c
                } else {
                    &&& r == Err::<usize, OpError>(OpError::InvalidArgument)
                    &&& final(self)@ == old(self)@
                }
            },
    {
        let len: usize = match &self.data {
            Some(d) => d.len(),
            None => {
                return Err(OpError::Unsupported);
            },
        };
        let target: i128 = if whence == SEEK_SET {
            offset as i128
        } else if whence == SEEK_CUR {
            self.seek as i128 + offset as i128
        } else if whence == SEEK_END {
            len as i128 + offset as i128
        } else {
            return Err(OpError::InvalidArgument);
        };
        let clamped: i128 = if target < 0 {
            0
        } else if target > len as i128 {
            len as i128
        } else {
            target
        };
        self.seek = clamped as usize;
        Ok(self.seek)
    }

    /// The served format carries no permission bits: a permission change
    /// succeeds and observably changes nothing.
    pub fn fchmod(&mut self, mode: u16) -> (r: Result<usize, OpError>)
        ensures
            final(self)@ == old(self)@,
            r == Ok::<usize, OpError>(0usize),
    {
        let _ = mode;
        Ok(0)
    }

    /// The served format carries no ownership bits: an ownership change
    /// succeeds and observably changes nothing.
    pub fn fchown(&mut self, uid: u32, gid: u32) -> (r: Result<usize, OpError>)
        ensures
            final(self)@ == old(self)@,
            r == Ok::<usize, OpError>(0usize),
    {
        let _ = uid;
        let _ = gid;
        Ok(0)
    }

    /// Descriptor control is not served on a directory snapshot.
    pub fn fcntl(&mut self, cmd: usize, arg: usize) -> (r: Result<usize, OpError>)
        ensures
            final(self)@ == old(self)@,
            r == Err::<usize, OpError>(OpError::Unsupported),
    {
        let _ = cmd;
        let _ = arg;
        Err(OpError::Unsupported)
    }

    /// Writes the resource's canonical path into the front of `buf` and
    /// returns how many bytes were written: the whole path, or as much of
    /// it as `buf` holds.
    pub fn path(&self, buf: &mut Vec<u8>) -> (r: Result<usize, OpError>)
        ensures
            final(buf)@.len() == old(buf)@.len(),
            ({
                let p = spec_path_bytes(self@.path);
                let n = vstd::math::min(old(buf)@.len() as int, p.len() as int);
                &&& r == Ok::<usize, OpError>(n as usize)
                &&& forall|j: int| 0 <= j < n ==> final(buf)@[j] == p[j]
                &&& forall|j: int| n <= j < final(buf)@.len() ==> final(buf)@[j] == old(buf)@[j]
            }),
    {
        let bytes = self.path.as_str().as_bytes_vec();
        let mut i: usize = 0;
        while i < buf.len() && i < bytes.len()
            invariant
                0 <= i <= buf@.len(),
                i <= bytes@.len(),
                buf@.len() == old(buf)@.len(),
                bytes@ == spec_path_bytes(self@.path),
                forall|j: int| 0 <= j < i ==> buf@[j] == bytes@[j],
                forall|j: int| i <= j < buf@.len() ==> buf@[j] == old(buf)@[j],
            decreases buf@.len() - i,
        {
            let b = bytes[i];
            buf.set(i, b);
            i = i + 1;
        }
        Ok(i)
    }

    /// Reports the resource's metadata into the caller's record: the
    /// block, the owning user id and the snapshot's byte size. The
    /// resource itself is observably untouched.
    pub fn stat(&self, stat: &mut Stat) -> (r: Result<usize, OpError>)
        ensures
            *final(stat) == spec_stat_of(self@),
            r == Ok::<usize, OpError>(0usize),
    {
        let size: u64 = match &self.data {
            Some(d) => d.len() as u64,
            None => 0,
        };
        *stat = Stat {
            st_dev: 0,
            st_ino: self.block,
            st_mode: 0,
            st_nlink: 1,
            st_uid: self.uid,
            st_gid: 0,
            st_size: size,
            st_mtime: 0,
            st_mtime_nsec: 0,
            st_ctime: 0,
            st_ctime_nsec: 0,
        };
        Ok(0)
    }

    /// A directory snapshot cannot be truncated.
    pub fn truncate(&mut self, len: usize) -> (r: Result<usize, OpError>)
        ensures
            final(self)@ == old(self)@,
            r == Err::<usize, OpError>(OpError::Unsupported),
    {
        let _ = len;
        Err(OpError::Unsupported)
    }

    /// Directory timestamps are not served on a snapshot.
    pub fn utimens(&mut self, times: &Vec<TimeSpec>) -> (r: Result<usize, OpError>)
        ensures
            final(self)@ == old(self)@,
            r == Err::<usize, OpError>(OpError::Unsupported),
    {
        let _ = times;
        Err(OpError::Unsupported)
    }
}

} // verus!
