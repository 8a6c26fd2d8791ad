//! The partition locator and the disk window.
//!
//! A partition table entry names a type code, a starting sector and a
//! sector count. The locator returns the table entries matching a
//! requested type code, in on-disk table order; table parsing itself is
//! delegated to an outside collaborator. The disk window wraps one block
//! device and one entry, and presents partition-relative reads, writes
//! and clamped seeks: every transfer first repositions the device to
//! `start LBA * sector size + window cursor`.

use vstd::prelude::*;

use crate::SECTORSIZE;
use crate::device::BlockDevice;
use crate::errors::{DiskError, TableReadError};

verus! {

/// One record of a device's partition table, immutable once read.
#[derive(Clone, Copy, Debug, PartialEq, Eq, Structural)]
pub struct PartitionEntry {
    /// The type code: which filesystem format the partition nominally holds.
    pub p_type: u8,
    /// Logical block address of the partition's first sector.
    pub p_lba: u32,
    /// Number of sectors in the partition.
    pub p_size: u32,
}

impl PartitionEntry {
    /// The partition's byte size, `sector count * sector size`.
    pub open spec fn spec_size_bytes(self) -> int {
        self.p_size * SECTORSIZE
    }
}

/// The subsequence of `table` whose type code is `typ`, in table order.
pub open spec fn spec_matching_partitions(table: Seq<PartitionEntry>, typ: u8) -> Seq<
    PartitionEntry,
>
    decreases table.len(),
{
    if table.len() == 0 {
        Seq::empty()
    } else {
        let rest = spec_matching_partitions(table.drop_last(), typ);
        if table.last().p_type == typ {
            rest.push(table.last())
        } else {
            rest
        }
    }
}

/// Every entry the locator keeps carries the requested type code.
pub proof fn lemma_matching_partitions_typed(table: Seq<PartitionEntry>, typ: u8)
    ensures
        forall|i: int|
            0 <= i < spec_matching_partitions(table, typ).len()
                ==> spec_matching_partitions(table, typ)[i].p_type == typ,
    decreases table.len(),
{
    if table.len() > 0 {
        lemma_matching_partitions_typed(table.drop_last(), typ);
        let rest = spec_matching_partitions(table.drop_last(), typ);
        let whole = spec_matching_partitions(table, typ);
        assert forall|i: int| 0 <= i < whole.len() implies whole[i].p_type == typ by {
            if table.last().p_type == typ {
                assert(whole == rest.push(table.last()));
                if i < rest.len() {
                    assert(whole[i] == rest[i]);
                }
            }
        }
    }
}

/// The entries of `table` whose type code is `typ`, in table order.
pub fn filter_partitions(table: &Vec<PartitionEntry>, typ: u8) -> (r: Vec<PartitionEntry>)
    ensures
        r@ == spec_matching_partitions(table@, typ),
{
    let mut out: Vec<PartitionEntry> = Vec::new();
    let mut i: usize = 0;
    while i < table.len()
        invariant
            0 <= i <= table@.len(),
            out@ == spec_matching_partitions(table@.take(i as int), typ),
        decreases table@.len() - i,
    {
        proof {
            assert(table@.take(i as int + 1).drop_last() =~= table@.take(i as int));
            assert(table@.take(i as int + 1).last() == table@[i as int]);
        }
        if table[i].p_type == typ {
            out.push(table[i]);
        }
        i = i + 1;
    }
    proof {
        assert(table@.take(table@.len() as int) =~= table@);
    }
    out
}

/// The locator's verified half. Reading a device's partition table is
/// host I/O and happens outside the library; `outcome` is what the table
/// parser returned for one device — its records in on-disk table order,
/// or the report of the failure that ended the read. (The parser applies
/// no validity check of its own: whatever records it read stand as the
/// table.) The locator keeps exactly the entries whose type code is
/// `typ`, in table order: a table with no matching entry yields an empty
/// sequence, not an error, and a failed read yields a `TableReadError`
/// carrying the parser's report, giving up that one device alone.
pub fn get_partitions(outcome: Result<Vec<PartitionEntry>, String>, typ: u8) -> (r: Result<
    Vec<PartitionEntry>,
    TableReadError,
>)
    ensures
        outcome matches Ok(table) ==> r matches Ok(v) && v@ == spec_matching_partitions(
            table@,
            typ,
        ),
        outcome matches Err(msg) ==> r == Err::<Vec<PartitionEntry>, TableReadError>(
            TableReadError { msg },
        ),
{
    match outcome {
        Ok(table) => Ok(filter_partitions(&table, typ)),
        Err(msg) => Err(TableReadError { msg }),
    }
}

/// A seek request against a disk window: from the window's start, from
/// the current cursor, or from the window's end.
#[derive(Clone, Copy, Debug, PartialEq, Eq, Structural)]
pub enum SeekFrom {
    /// An absolute offset from the start of the window.
    Start(u64),
    /// A signed offset from the current cursor.
    Current(i64),
    /// A signed offset from the end of the window.
    End(i64),
}

/// `target` clamped into `[0, size]`. Out-of-range seek requests are
/// clamped, never rejected.
pub open spec fn spec_clamp(target: int, size: int) -> int {
    if target < 0 {
        0
    } else if target > size {
        size
    } else {
        target
    }
}

/// However far out of range the request, the clamped cursor lies in
/// `[0, size]`: no seek sequence can move the cursor out of the window.
pub proof fn lemma_clamp_in_window(target: int, size: int)
    requires
        size >= 0,
    ensures
        0 <= spec_clamp(target, size) <= size,
{
}

/// A partition-relative window onto one block device. It owns the device
/// handle exclusively — two windows over one device would interleave
/// seeks — and keeps a byte cursor that never leaves
/// `[0, partition byte size]`.
pub struct DiskPartition<D: BlockDevice> {
    diskfile: D,
    partition: PartitionEntry,
    byte_offset: u64,
}

impl<D: BlockDevice> DiskPartition<D> {
    /// The table entry the window serves.
    pub closed spec fn spec_partition(self) -> PartitionEntry {
        self.partition
    }

    /// The window's byte cursor.
    pub closed spec fn spec_cursor(self) -> u64 {
        self.byte_offset
    }

    /// The owned device handle.
    pub closed spec fn spec_device(self) -> D {
        self.diskfile
    }

    /// The cursor is inside the window.
    pub open spec fn wf(self) -> bool {
        self.spec_cursor() <= self.spec_partition().spec_size_bytes()
    }

    /// The absolute device offset every transfer starts at:
    /// `start LBA * sector size + window cursor`.
    pub open spec fn spec_abs_offset(self) -> int {
        self.spec_partition().p_lba * SECTORSIZE + self.spec_cursor()
    }

    /// A window over `disk` serving `part`, with the cursor at zero.
    pub fn new(disk: D, part: PartitionEntry) -> (r: Self)
        ensures
            r.wf(),
            r.spec_partition() == part,
            r.spec_cursor() == 0,
            r.spec_device() == disk,
    {
        DiskPartition { diskfile: disk, partition: part, byte_offset: 0 }
    }

    /// Ends the window and hands the device handle back, so its owner can
    /// observe where the window left the device or open a new window.
    pub fn into_device(self) -> (r: D)
        ensures
            r == self.spec_device(),
    {
        self.diskfile
    }

    /// The window's size in bytes.
    fn get_size(&self) -> (r: u64)
        ensures
            r == self.spec_partition().spec_size_bytes(),
    {
        proof {
            assert(self.partition.p_size as int * SECTORSIZE as int <= u32::MAX as int * 512)
                by (nonlinear_arith)
                requires
                    self.partition.p_size <= u32::MAX,
                    SECTORSIZE == 512,
            ;
        }
        self.partition.p_size as u64 * SECTORSIZE as u64
    }

    /// Repositions the device to the cursor's absolute offset and reads
    /// into the front of `buf`; the cursor itself does not move. On
    /// success the bytes served are exactly the device's bytes starting
    /// at `start LBA * sector size + cursor`, and the device stands `n`
    /// bytes past that offset.
    pub fn read(&mut self, buf: &mut Vec<u8>) -> (r: Result<usize, DiskError>)
        requires
            old(self).wf(),
        ensures
            final(self).wf(),
            final(self).spec_partition() == old(self).spec_partition(),
            final(self).spec_cursor() == old(self).spec_cursor(),
            final(self).spec_device().contents() == old(self).spec_device().contents(),
            final(buf)@.len() == old(buf)@.len(),
            r matches Ok(n) ==> {
                let abs = old(self).spec_abs_offset();
                let dev = old(self).spec_device().contents();
                &&& n == if abs <= dev.len() {
                    vstd::math::min(old(buf)@.len() as int, dev.len() - abs)
                } else {
                    0int
                }
                &&& final(self).spec_device().pos() == abs + n
                &&& forall|j: int| 0 <= j < n ==> final(buf)@[j] == dev[abs + j]
                &&& forall|j: int| n <= j < final(buf)@.len() ==> final(buf)@[j] == old(buf)@[j]
            },
    {
        proof {
            assert(self.spec_cursor() <= u32::MAX as int * 512) by (nonlinear_arith)
                requires
                    self.spec_cursor() <= self.partition.p_size * SECTORSIZE,
                    self.partition.p_size <= u32::MAX,
                    SECTORSIZE == 512,
            ;
            assert(self.partition.p_lba as int * SECTORSIZE as int <= u32::MAX as int * 512)
                by (nonlinear_arith)
                requires
                    self.partition.p_lba <= u32::MAX,
                    SECTORSIZE == 512,
            ;
        }
        let abs: u64 = self.partition.p_lba as u64 * SECTORSIZE as u64 + self.byte_offset;
        match self.diskfile.seek_abs(abs) {
            Ok(_) => {},
            Err(e) => {
                return Err(e);
            },
        }
        self.diskfile.read_at_pos(buf)
    }

    /// Repositions the device to the cursor's absolute offset and writes
    /// from `buf`; the cursor itself does not move. On success exactly
    /// the reported bytes land on the device starting at
    /// `start LBA * sector size + cursor`, every other device byte keeps
    /// its value, and the device stands `n` bytes past that offset.
    pub fn write(&mut self, buf: &Vec<u8>) -> (r: Result<usize, DiskError>)
        requires
            old(self).wf(),
        ensures
            final(self).wf(),
            final(self).spec_partition() == old(self).spec_partition(),
            final(self).spec_cursor() == old(self).spec_cursor(),
            final(self).spec_device().contents().len() == old(
                self,
            ).spec_device().contents().len(),
            r matches Ok(n) ==> {
                let abs = old(self).spec_abs_offset();
                let dev = old(self).spec_device().contents();
                &&& n == if abs <= dev.len() {
                    vstd::math::min(buf@.len() as int, dev.len() - abs)
                } else {
                    0int
                }
                &&& final(self).spec_device().pos() == abs + n
                &&& forall|j: int|
                    0 <= j < n ==> final(self).spec_device().contents()[abs + j] == buf@[j]
                &&& forall|j: int|
                    0 <= j < dev.len() && !(abs <= j < abs + n)
                        ==> final(self).spec_device().contents()[j] == dev[j]
            },
    {
        proof {
            assert(self.spec_cursor() <= u32::MAX as int * 512) by (nonlinear_arith)
                requires
                    self.spec_cursor() <= self.partition.p_size * SECTORSIZE,
                    self.partition.p_size <= u32::MAX,
                    SECTORSIZE == 512,
            ;
            assert(self.partition.p_lba as int * SECTORSIZE as int <= u32::MAX as int * 512)
                by (nonlinear_arith)
                requires
                    self.partition.p_lba <= u32::MAX,
                    SECTORSIZE == 512,
            ;
        }
        let abs: u64 = self.partition.p_lba as u64 * SECTORSIZE as u64 + self.byte_offset;
        match self.diskfile.seek_abs(abs) {
            Ok(_) => {},
            Err(e) => {
                return Err(e);
            },
        }
        self.diskfile.write_at_pos(buf)
    }

    /// Forces buffered bytes of the underlying device out to the store.
    pub fn flush(&mut self) -> (r: Result<(), DiskError>)
        requires
            old(self).wf(),
        ensures
            final(self).wf(),
            final(self).spec_partition() == old(self).spec_partition(),
            final(self).spec_cursor() == old(self).spec_cursor(),
            final(self).spec_device().contents() == old(self).spec_device().contents(),
            final(self).spec_device().pos() == old(self).spec_device().pos(),
    {
        self.diskfile.flush()
    }

    /// The cursor the seek request asks for, before clamping.
    pub open spec fn spec_seek_target(self, pos: SeekFrom) -> int {
        match pos {
            SeekFrom::Start(off) => off as int,
            SeekFrom::Current(off) => self.spec_cursor() + off,
            SeekFrom::End(off) => self.spec_partition().spec_size_bytes() + off,
        }
    }

    /// Moves the cursor. The requested target is clamped, not rejected,
    /// into `[0, partition byte size]`, however far out of range it is;
    /// the new cursor is returned.
    pub fn seek(&mut self, pos: SeekFrom) -> (r: Result<u64, DiskError>)
        requires
            old(self).wf(),
        ensures
            final(self).wf(),
            final(self).spec_partition() == old(self).spec_partition(),
            final(self).spec_device() == old(self).spec_device(),
            final(self).spec_cursor() == spec_clamp(
                old(self).spec_seek_target(pos),
                old(self).spec_partition().spec_size_bytes(),
            ),
            0 <= final(self).spec_cursor() <= old(self).spec_partition().spec_size_bytes(),
            r matches Ok(c) ==> c == final(self).spec_cursor(),
            r is Ok,
    {
        let size: i128 = self.get_size() as i128;
        let target: i128 = match pos {
            SeekFrom::Start(off) => off as i128,
            SeekFrom::Current(off) => self.byte_offset as i128 + off as i128,
            SeekFrom::End(off) => size + off as i128,
        };
        let clamped: i128 = if target < 0 {
            0
        } else if target > size {
            size
        } else {
            target
        };
        self.byte_offset = clamped as u64;
        Ok(self.byte_offset)
    }
}

} // verus!
