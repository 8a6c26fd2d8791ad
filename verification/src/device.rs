//! The block-device collaborator: any resource offering read, write and
//! seek by absolute byte offset.
//!
//! The disk window is generic over this trait, so its offset arithmetic
//! and its transfers are proved for every device. [`MemDisk`] is a
//! verified in-memory device; a host binds a real device handle to the
//! trait outside the library.

use vstd::prelude::*;

use crate::errors::DiskError;

verus! {

/// A fixed-extent, randomly addressable byte store with an exclusive
/// owner and one position cursor. `pos` is the device's current absolute
/// byte offset and `contents` its bytes: a successful seek moves the
/// position to the requested offset, and a successful transfer moves
/// exactly the reported bytes at the position and advances it by their
/// count, stopping at the device's end.
pub trait BlockDevice: Sized {
    /// The device's current absolute byte offset.
    open spec fn pos(&self) -> u64 {
        0u64
    }

    /// The bytes the device stores.
    open spec fn contents(&self) -> Seq<u8> {
        Seq::empty()
    }

    /// Repositions the device to the absolute byte offset `offset`.
    fn seek_abs(&mut self, offset: u64) -> (r: Result<u64, DiskError>)
        ensures
            final(self).contents() == old(self).contents(),
            r matches Ok(p) ==> p == offset && final(self).pos() == offset,
    ;

    /// Reads bytes at the current position into the front of `buf`:
    /// as many as `buf` holds or as remain before the device's end,
    /// whichever is fewer. Returns how many bytes were transferred.
    fn read_at_pos(&mut self, buf: &mut Vec<u8>) -> (r: Result<usize, DiskError>)
        ensures
            final(self).contents() == old(self).contents(),
            final(buf)@.len() == old(buf)@.len(),
            r matches Ok(n) ==> {
                &&& n == if old(self).pos() <= old(self).contents().len() {
                    vstd::math::min(
                        old(buf)@.len() as int,
                        old(self).contents().len() - old(self).pos(),
                    )
                } else {
                    0int
                }
                &&& final(self).pos() == old(self).pos() + n
                &&& forall|j: int|
                    0 <= j < n ==> final(buf)@[j] == old(self).contents()[old(self).pos() + j]
                &&& forall|j: int| n <= j < final(buf)@.len() ==> final(buf)@[j] == old(buf)@[j]
            },
    ;

    /// Writes bytes from `buf` at the current position: as many as `buf`
    /// holds or as fit before the device's end, whichever is fewer.
    /// Returns how many bytes were transferred.
    fn write_at_pos(&mut self, buf: &Vec<u8>) -> (r: Result<usize, DiskError>)
        ensures
            final(self).contents().len() == old(self).contents().len(),
            r matches Ok(n) ==> {
                &&& n == if old(self).pos() <= old(self).contents().len() {
                    vstd::math::min(buf@.len() as int, old(self).contents().len() - old(self).pos())
                } else {
                    0int
                }
                &&& final(self).pos() == old(self).pos() + n
                &&& forall|j: int|
                    0 <= j < n ==> final(self).contents()[old(self).pos() + j] == buf@[j]
                &&& forall|j: int|
                    0 <= j < final(self).contents().len() && !(old(self).pos() <= j < old(self).pos()
                        + n) ==> final(self).contents()[j] == old(self).contents()[j]
            },
    ;

    /// Forces any buffered bytes out to the store.
    fn flush(&mut self) -> (r: Result<(), DiskError>)
        ensures
            final(self).contents() == old(self).contents(),
            final(self).pos() == old(self).pos(),
    ;
}

/// A fixed-size in-memory block device. It records its position, so a
/// test can observe exactly where the window put it and what a windowed
/// write stored.
pub struct MemDisk {
    data: Vec<u8>,
    cursor: u64,
}

impl MemDisk {
    /// A device over the given bytes, positioned at offset zero.
    pub fn new(data: Vec<u8>) -> (r: MemDisk)
        ensures
            r.contents() == data@,
            r.pos() == 0,
    {
        MemDisk { data, cursor: 0 }
    }

    /// The device's size in bytes.
    pub fn size(&self) -> (r: usize)
        ensures
            r == self.contents().len(),
    {
        self.data.len()
    }

    /// The byte at `offset`, for observing what a windowed write stored.
    pub fn byte_at(&self, offset: usize) -> (r: u8)
        requires
            offset < self.contents().len(),
        ensures
            r == self.contents()[offset as int],
    {
        self.data[offset]
    }

    /// The device's current absolute position, for observing where the
    /// window put it.
    pub fn position(&self) -> (r: u64)
        ensures
            r == self.pos(),
    {
        self.cursor
    }
}

impl BlockDevice for MemDisk {
    closed spec fn pos(&self) -> u64 {
        self.cursor
    }

    closed spec fn contents(&self) -> Seq<u8> {
        self.data@
    }

    fn seek_abs(&mut self, offset: u64) -> (r: Result<u64, DiskError>) {
        self.cursor = offset;
        Ok(offset)
    }

    fn read_at_pos(&mut self, buf: &mut Vec<u8>) -> (r: Result<usize, DiskError>) {
        let len = self.data.len();
        if self.cursor >= len as u64 {
            return Ok(0);
        }
        let start = self.cursor as usize;
        let avail = len - start;
        let n = if buf.len() < avail {
            buf.len()
        } else {
            avail
        };
        let mut i: usize = 0;
        while i < n
            invariant
                0 <= i <= n,
                n <= buf@.len(),
                len == self.contents().len(),
                start + n <= len,
                buf@.len() == old(buf)@.len(),
                self.contents() == old(self).contents(),
                self.cursor == start as u64,
                forall|j: int| 0 <= j < i ==> buf@[j] == self.contents()[start + j],
                forall|j: int| i <= j < buf@.len() ==> buf@[j] == old(buf)@[j],
            decreases n - i,
        {
            let b = self.data[start + i];
            buf.set(i, b);
            i = i + 1;
        }
        self.cursor = (start + n) as u64;
        Ok(n)
    }

    fn write_at_pos(&mut self, buf: &Vec<u8>) -> (r: Result<usize, DiskError>) {
        let len = self.data.len();
        if self.cursor >= len as u64 {
            return Ok(0);
        }
        let start = self.cursor as usize;
        let avail = len - start;
        let n = if buf.len() < avail {
            buf.len()
        } else {
            avail
        };
        let mut i: usize = 0;
        while i < n
            invariant
                0 <= i <= n,
                n <= buf@.len(),
                len == self.contents().len(),
                start + n <= len,
                self.contents().len() == old(self).contents().len(),
                self.cursor == start as u64,
                forall|j: int| 0 <= j < i ==> self.contents()[start + j] == buf@[j],
                forall|j: int|
                    0 <= j < self.contents().len() && !(start <= j < start + i)
                        ==> self.contents()[j] == old(self).contents()[j],
            decreases n - i,
        {
            let b = buf[i];
            self.data.set(start + i, b);
            i = i + 1;
        }
        self.cursor = (start + n) as u64;
        Ok(n)
    }

    fn flush(&mut self) -> (r: Result<(), DiskError>) {
        Ok(())
    }
}

} // verus!
