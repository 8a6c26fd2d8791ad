//! The per-mount resource table and request dispatcher.
//!
//! One `FileScheme` exists per successfully mounted partition. It owns
//! the mounted filesystem instance exclusively — all access to it goes
//! through the table — together with the table of open resources, keyed
//! by integer id, and a monotonically increasing id allocator: an id is
//! unique among currently-open handles, is never handed out twice while
//! open, and once closed resolves to no handle at all — every later
//! request on it fails with `BadHandle` and changes nothing. Exclusive
//! access is by construction: every operation takes the table by
//! exclusive borrow, so two contexts can never mutate it at once.
//!
//! The filesystem engine itself is an opaque collaborator: resolving a
//! path and materializing a listing are its work, done through
//! [`FileScheme::filesystem`], and the open request then arrives here
//! with the resolved block and the materialized snapshot, and the
//! dispatcher allocates the id.

use vstd::prelude::*;

use crate::errors::OpError;
use crate::resource::{
    DirResource, DirView, Stat, TimeSpec, SEEK_CUR, SEEK_END, SEEK_SET, spec_dir_seek_target,
    spec_dir_with_seek, spec_stat_of,
};

verus! {

/// No two entries carry the same resource id.
pub open spec fn distinct_ids(entries: Seq<(usize, DirResource)>) -> bool {
    forall|i: int, j: int|
        0 <= i < j < entries.len() ==> (#[trigger] entries[i]).0 != (#[trigger] entries[j]).0
}

/// The table as a mathematical map, entry by entry.
pub open spec fn map_of(entries: Seq<(usize, DirResource)>) -> Map<usize, DirView>
    decreases entries.len(),
{
    if entries.len() == 0 {
        Map::empty()
    } else {
        map_of(entries.drop_last()).insert(entries.last().0, entries.last().1@)
    }
}

/// An id is in the map exactly when some entry carries it.
proof fn lemma_map_of_dom(entries: Seq<(usize, DirResource)>, id: usize)
    ensures
        map_of(entries).dom().contains(id) <==> exists|i: int|
            0 <= i < entries.len() && (#[trigger] entries[i]).0 == id,
    decreases entries.len(),
{
    if entries.len() > 0 {
        lemma_map_of_dom(entries.drop_last(), id);
        if map_of(entries).dom().contains(id) {
            if id != entries.last().0 {
                let w = choose|i: int|
                    0 <= i < entries.drop_last().len() && (#[trigger] entries.drop_last()[i]).0
                        == id;
                assert(entries[w].0 == id);
            } else {
                assert(entries[entries.len() - 1].0 == id);
            }
        }
        if exists|i: int| 0 <= i < entries.len() && (#[trigger] entries[i]).0 == id {
            let w = choose|i: int| 0 <= i < entries.len() && (#[trigger] entries[i]).0 == id;
            if w < entries.len() - 1 {
                assert(entries.drop_last()[w].0 == id);
            }
        }
    }
}

/// With distinct ids, the map sends each entry's id to that entry's view.
proof fn lemma_map_of_value(entries: Seq<(usize, DirResource)>, i: int)
    requires
        distinct_ids(entries),
        0 <= i < entries.len(),
    ensures
        map_of(entries).dom().contains(entries[i].0),
        map_of(entries)[entries[i].0] == entries[i].1@,
    decreases entries.len(),
{
    if i == entries.len() - 1 {
    } else {
        assert(distinct_ids(entries.drop_last()));
        assert(entries.drop_last()[i] == entries[i]);
        lemma_map_of_value(entries.drop_last(), i);
        assert(entries[i].0 != entries.last().0);
    }
}

/// Replacing the handle of one entry updates exactly that id's image.
proof fn lemma_map_of_update(entries: Seq<(usize, DirResource)>, i: int, h: DirResource)
    requires
        distinct_ids(entries),
        0 <= i < entries.len(),
    ensures
        map_of(entries.update(i, (entries[i].0, h))) =~= map_of(entries).insert(entries[i].0, h@),
    decreases entries.len(),
{
    let id = entries[i].0;
    let post = entries.update(i, (id, h));
    if i == entries.len() - 1 {
        assert(post.drop_last() =~= entries.drop_last());
        assert(map_of(post) == map_of(entries.drop_last()).insert(id, h@));
        assert(map_of(entries.drop_last()).insert(id, entries[i].1@).insert(id, h@)
            =~= map_of(entries.drop_last()).insert(id, h@));
    } else {
        let lastid = entries.last().0;
        let lastv = entries.last().1@;
        assert(lastid != id);
        assert(distinct_ids(entries.drop_last()));
        assert(entries.drop_last()[i] == entries[i]);
        lemma_map_of_update(entries.drop_last(), i, h);
        assert(post.drop_last() =~= entries.drop_last().update(i, (id, h)));
        assert(post.last() == entries.last());
        assert(map_of(post) == map_of(entries.drop_last().update(i, (id, h))).insert(
            lastid,
            lastv,
        ));
        assert(map_of(entries.drop_last()).insert(id, h@).insert(lastid, lastv)
            =~= map_of(entries.drop_last()).insert(lastid, lastv).insert(id, h@));
    }
}

/// Removing one entry removes exactly that id from the map.
proof fn lemma_map_of_remove(entries: Seq<(usize, DirResource)>, i: int)
    requires
        distinct_ids(entries),
        0 <= i < entries.len(),
    ensures
        map_of(entries.remove(i)) =~= map_of(entries).remove(entries[i].0),
    decreases entries.len(),
{
    let id = entries[i].0;
    if i == entries.len() - 1 {
        assert(entries.remove(i) =~= entries.drop_last());
        lemma_map_of_dom(entries.drop_last(), id);
        assert(forall|j: int|
            0 <= j < entries.drop_last().len()
                ==> (#[trigger] entries.drop_last()[j]).0 == entries[j].0 && entries[j].0 != id);
        assert(!map_of(entries.drop_last()).dom().contains(id));
        assert(map_of(entries.drop_last()).insert(id, entries[i].1@).remove(id)
            =~= map_of(entries.drop_last()));
    } else {
        let lastid = entries.last().0;
        let lastv = entries.last().1@;
        assert(lastid != id);
        assert(distinct_ids(entries.drop_last()));
        assert(entries.drop_last()[i] == entries[i]);
        lemma_map_of_remove(entries.drop_last(), i);
        assert(entries.remove(i).drop_last() =~= entries.drop_last().remove(i));
        assert(entries.remove(i).last() == entries.last());
        assert(map_of(entries.remove(i)) == map_of(entries.drop_last().remove(i)).insert(
            lastid,
            lastv,
        ));
        assert(map_of(entries.drop_last()).remove(id).insert(lastid, lastv)
            =~= map_of(entries.drop_last()).insert(lastid, lastv).remove(id));
    }
}

/// A table whose entries differ from another's only by the handle of one
/// id keeps every well-formedness property, provided that handle is well
/// formed.
proof fn lemma_update_keeps_wf<F>(pre: FileScheme<F>, post: FileScheme<F>, i: int, h: DirResource)
    requires
        pre.wf(),
        0 <= i < pre.entries().len(),
        h.wf(),
        post.entries() == pre.entries().update(i, (pre.entries()[i].0, h)),
        post.spec_next_id() == pre.spec_next_id(),
    ensures
        post.wf(),
{
    assert forall|a: int, b: int|
        0 <= a < b < post.entries().len() implies (#[trigger] post.entries()[a]).0
        != (#[trigger] post.entries()[b]).0 by {
        assert(pre.entries()[a].0 != pre.entries()[b].0);
    }
    assert forall|a: int|
        0 <= a < post.entries().len() implies (#[trigger] post.entries()[a]).0
        < post.spec_next_id() by {
        assert(pre.entries()[a].0 < pre.spec_next_id());
    }
    assert forall|a: int|
        0 <= a < post.entries().len() implies (#[trigger] post.entries()[a]).1.wf() by {
        if a != i {
            assert(post.entries()[a] == pre.entries()[a]);
        }
    }
}

/// The per-mount resource table: the served namespace's name, the one
/// mounted filesystem instance — owned here exclusively — the open
/// handles keyed by id, and the id allocator. The filesystem engine `F`
/// is an opaque collaborator (a `fatfs::FileSystem` over the partition's
/// disk window, in the served configuration): the library assumes
/// nothing of it, and owning the single instance here is what makes
/// every engine access go through the table's exclusive borrow.
#[verifier::reject_recursive_types(F)]
pub struct FileScheme<F> {
    name: String,
    fs: F,
    next_id: usize,
    files: Vec<(usize, DirResource)>,
}

impl<F> View for FileScheme<F> {
    type V = Map<usize, DirView>;

    closed spec fn view(&self) -> Map<usize, DirView> {
        map_of(self.files@)
    }
}

impl<F> FileScheme<F> {
    /// The namespace name this table serves.
    pub closed spec fn spec_name(self) -> Seq<char> {
        self.name@
    }

    /// The next id the allocator will hand out.
    pub closed spec fn spec_next_id(self) -> usize {
        self.next_id
    }

    /// The open entries, in insertion order.
    pub closed spec fn entries(self) -> Seq<(usize, DirResource)> {
        self.files@
    }

    /// The ids of the currently-open handles, in insertion order.
    pub open spec fn ids(self) -> Seq<usize> {
        self.entries().map_values(|e: (usize, DirResource)| e.0)
    }

    /// Ids are pairwise distinct, all below the allocator's next id, and
    /// every open handle is well formed.
    pub open spec fn wf(self) -> bool {
        &&& distinct_ids(self.entries())
        &&& forall|i: int|
            0 <= i < self.entries().len() ==> (#[trigger] self.entries()[i]).0
                < self.spec_next_id()
        &&& forall|i: int| 0 <= i < self.entries().len() ==> (#[trigger] self.entries()[i]).1.wf()
        &&& 1 <= self.spec_next_id()
    }

    /// A fresh table for one mounted partition, taking exclusive
    /// ownership of that partition's filesystem instance: no open
    /// resources, ids starting at one.
    pub fn new(name: String, fs: F) -> (r: FileScheme<F>)
        ensures
            r.wf(),
            r.spec_name() == name@,
            r.spec_next_id() == 1,
            r.spec_engine() == fs,
            r@ == Map::<usize, DirView>::empty(),
    {
        FileScheme { name, fs, next_id: 1, files: Vec::new() }
    }

    /// The namespace name this table serves.
    pub fn name(&self) -> (r: &str)
        ensures
            r@ == self.spec_name(),
    {
        self.name.as_str()
    }

    /// The owned filesystem engine instance.
    pub closed spec fn spec_engine(self) -> F {
        self.fs
    }

    /// Exclusive access to the owned filesystem instance, for resolving
    /// a path or materializing a listing before a handle is registered.
    /// Reaching it takes the table's exclusive borrow, so all engine
    /// access is serialized through the table that owns it.
    pub fn filesystem(&mut self) -> &mut F {
        &mut self.fs
    }

    /// The index of the entry holding `id`, if the id is open.
    fn find(&self, id: usize) -> (r: Option<usize>)
        requires
            self.wf(),
        ensures
            match r {
                Some(i) => {
                    &&& i < self.entries().len()
                    &&& self.entries()[i as int].0 == id
                    &&& self@.dom().contains(id)
                    &&& self@[id] == self.entries()[i as int].1@
                },
                None => !self@.dom().contains(id),
            },
    {
        let mut i: usize = 0;
        while i < self.files.len()
            invariant
                self.wf(),
                0 <= i <= self.files@.len(),
                forall|j: int| 0 <= j < i ==> (#[trigger] self.files@[j]).0 != id,
            decreases self.files@.len() - i,
        {
            if self.files[i].0 == id {
                proof {
                    lemma_map_of_value(self.files@, i as int);
                }
                return Some(i);
            }
            i = i + 1;
        }
        proof {
            lemma_map_of_dom(self.files@, id);
        }
        None
    }

    /// Registers a newly opened directory resource under a fresh id: the
    /// id was not open before, and afterwards it maps to the new handle
    /// while every other handle is exactly as it was.
    pub fn open_dir(
        &mut self,
        path: String,
        block: u64,
        data: Option<Vec<u8>>,
        uid: u32,
    ) -> (id: usize)
        requires
            old(self).wf(),
            old(self).spec_next_id() < usize::MAX,
        ensures
            final(self).wf(),
            final(self).spec_name() == old(self).spec_name(),
            final(self).spec_engine() == old(self).spec_engine(),
            id == old(self).spec_next_id(),
            final(self).spec_next_id() == old(self).spec_next_id() + 1,
            !old(self)@.dom().contains(id),
            final(self)@.dom().contains(id),
            final(self)@ == old(self)@.insert(id, final(self)@[id]),
            final(self)@[id].path == path@,
            final(self)@[id].block == block,
            final(self)@[id].seek == 0,
            final(self)@[id].uid == uid,
            data matches Some(v) ==> final(self)@[id].data == Some(v@),
            data is None ==> final(self)@[id].data is None,
    {
        let id = self.next_id;
        self.next_id = self.next_id + 1;
        let handle = DirResource::new(path, block, data, uid);
        proof {
            lemma_map_of_dom(self.files@, id);
        }
        self.files.push((id, handle));
        proof {
            assert(self.files@.drop_last() =~= old(self).entries());
            lemma_map_of_value(self.files@, self.files@.len() - 1);
        }
        id
    }

    /// Removes the entry for `id`; the id is invalid from this moment on.
    /// An id that is not open fails with `BadHandle` and nothing changes.
    pub fn close(&mut self, id: usize) -> (r: Result<usize, OpError>)
        requires
            old(self).wf(),
        ensures
            final(self).wf(),
            final(self).spec_name() == old(self).spec_name(),
            final(self).spec_engine() == old(self).spec_engine(),
            final(self).spec_next_id() == old(self).spec_next_id(),
            !old(self)@.dom().contains(id) ==> r == Err::<usize, OpError>(OpError::BadHandle)
                && final(self)@ == old(self)@,
            old(self)@.dom().contains(id) ==> r == Ok::<usize, OpError>(0usize) && final(self)@
                == old(self)@.remove(id) && !final(self)@.dom().contains(id),
    {
        let idx = match self.find(id) {
            Some(i) => i,
            None => {
                return Err(OpError::BadHandle);
            },
        };
        proof {
            lemma_map_of_remove(self.files@, idx as int);
        }
        let _ = self.files.remove(idx);
        proof {
            assert forall|a: int, b: int|
                0 <= a < b < self.files@.len() implies (#[trigger] self.files@[a]).0
                != (#[trigger] self.files@[b]).0 by {
                assert(self.files@ == old(self).entries().remove(idx as int));
            }
        }
        Ok(0)
    }

    /// Opens an independent handle on the same content as `id`, under a
    /// fresh id of its own: the new handle starts with the original's
    /// snapshot and cursor, and the original is untouched.
    pub fn dup(&mut self, id: usize) -> (r: Result<usize, OpError>)
        requires
            old(self).wf(),
            old(self).spec_next_id() < usize::MAX,
        ensures
            final(self).wf(),
            final(self).spec_name() == old(self).spec_name(),
            final(self).spec_engine() == old(self).spec_engine(),
            !old(self)@.dom().contains(id) ==> r == Err::<usize, OpError>(OpError::BadHandle)
                && final(self)@ == old(self)@
                && final(self).spec_next_id() == old(self).spec_next_id(),
            old(self)@.dom().contains(id) ==> {
                let nid = old(self).spec_next_id();
                &&& r == Ok::<usize, OpError>(nid)
                &&& !old(self)@.dom().contains(nid)
                &&& final(self).spec_next_id() == old(self).spec_next_id() + 1
                &&& final(self)@ == old(self)@.insert(nid, old(self)@[id])
                &&& final(self)@[id] == old(self)@[id]
            },
    {
        let idx = match self.find(id) {
            Some(i) => i,
            None => {
                return Err(OpError::BadHandle);
            },
        };
        let entry = self.files.remove(idx);
        let copy = entry.1.dup();
        self.files.insert(idx, entry);
        proof {
            assert(self.files@ =~= old(self).entries());
        }
        let nid = self.next_id;
        self.next_id = self.next_id + 1;
        proof {
            lemma_map_of_dom(self.files@, nid);
        }
        self.files.push((nid, copy));
        proof {
            assert(self.files@.drop_last() =~= old(self).entries());
            lemma_map_of_value(self.files@, self.files@.len() - 1);
            lemma_map_of_value(old(self).entries(), idx as int);
        }
        Ok(nid)
    }

    /// Serves bytes of `id`'s materialized snapshot into the front of
    /// `buf` and advances that handle's cursor by exactly the bytes
    /// served; no other handle moves.
    pub fn read(&mut self, id: usize, buf: &mut Vec<u8>) -> (r: Result<usize, OpError>)
        requires
            old(self).wf(),
        ensures
            final(self).wf(),
            final(self).spec_name() == old(self).spec_name(),
            final(self).spec_engine() == old(self).spec_engine(),
            final(self).spec_next_id() == old(self).spec_next_id(),
            final(buf)@.len() == old(buf)@.len(),
            !old(self)@.dom().contains(id) ==> r == Err::<usize, OpError>(OpError::BadHandle)
                && final(self)@ == old(self)@ && final(buf)@ == old(buf)@,
            old(self)@.dom().contains(id) ==> {
                let d0 = old(self)@[id];
                &&& (d0.data is None ==> r == Err::<usize, OpError>(OpError::IsDirectory) && final(self)@ == old(self)@ && final(buf)@ == old(buf)@)
                &&& (d0.data matches Some(d) ==> {
                    let n = vstd::math::min(old(buf)@.len() as int, d.len() - d0.seek);
                    &&& r == Ok::<usize, OpError>(n as usize)
                    &&& final(self)@ == old(self)@.insert(id, spec_dir_with_seek(d0, d0.seek + n))
                    &&& forall|j: int| 0 <= j < n ==> final(buf)@[j] == d[d0.seek + j]
                    &&& forall|j: int|
                        n <= j < final(buf)@.len() ==> final(buf)@[j] == old(buf)@[j]
                })
            },
    {
        let idx = match self.find(id) {
            Some(i) => i,
            None => {
                return Err(OpError::BadHandle);
            },
        };
        let mut entry = self.files.remove(idx);
        let res = entry.1.read(buf);
        let ghost h2 = entry.1;
        self.files.insert(idx, entry);
        proof {
            assert(self.files@ =~= old(self).entries().update(idx as int, (id, h2)));
            lemma_map_of_update(old(self).entries(), idx as int, h2);
            lemma_update_keeps_wf(*old(self), *self, idx as int, h2);
            if old(self)@[id].data is None {
                assert(old(self)@.insert(id, h2@) =~= old(self)@);
            }
        }
        res
    }

    /// A directory snapshot is read-only: a write on an open id is
    /// refused and nothing changes; an id that is not open fails with
    /// `BadHandle`.
    pub fn write(&mut self, id: usize, buf: &Vec<u8>) -> (r: Result<usize, OpError>)
        requires
            old(self).wf(),
        ensures
            final(self).wf(),
            final(self).spec_name() == old(self).spec_name(),
            final(self).spec_engine() == old(self).spec_engine(),
            final(self).spec_next_id() == old(self).spec_next_id(),
            final(self)@ == old(self)@,
            !old(self)@.dom().contains(id) ==> r == Err::<usize, OpError>(OpError::BadHandle),
            old(self)@.dom().contains(id) ==> r == Err::<usize, OpError>(OpError::Unsupported),
    {
        let idx = match self.find(id) {
            Some(i) => i,
            None => {
                return Err(OpError::BadHandle);
            },
        };
        let mut entry = self.files.remove(idx);
        let res = entry.1.write(buf);
        let ghost h2 = entry.1;
        self.files.insert(idx, entry);
        proof {
            assert(self.files@ =~= old(self).entries().update(idx as int, (id, h2)));
            lemma_map_of_update(old(self).entries(), idx as int, h2);
            lemma_update_keeps_wf(*old(self), *self, idx as int, h2);
            assert(old(self)@.insert(id, h2@) =~= old(self)@);
        }
        res
    }

    /// Moves `id`'s cursor within its snapshot, clamping the target into
    /// `[0, snapshot length]`; no other handle moves.
    pub fn seek(&mut self, id: usize, offset: isize, whence: usize) -> (r: Result<usize, OpError>)
        requires
            old(self).wf(),
        ensures
            final(self).wf(),
            final(self).spec_name() == old(self).spec_name(),
            final(self).spec_engine() == old(self).spec_engine(),
            final(self).spec_next_id() == old(self).spec_next_id(),
            !old(self)@.dom().contains(id) ==> r == Err::<usize, OpError>(OpError::BadHandle)
                && final(self)@ == old(self)@,
            old(self)@.dom().contains(id) ==> {
                let d0 = old(self)@[id];
                &&& (d0.data is None ==> r == Err::<usize, OpError>(OpError::Unsupported) && final(self)@ == old(self)@)
                &&& (d0.data matches Some(d) ==> (if whence == SEEK_SET || whence == SEEK_CUR
                    || whence == SEEK_END {
                    let c = crate::partition::spec_clamp(
                        spec_dir_seek_target(d0, offset as int, whence),
                        d.len() as int,
                    );
                    &&& r == Ok::<usize, OpError>(c as usize)
                    &&& final(self)@ == old(self)@.insert(id, spec_dir_with_seek(d0, c))
                } else {
                    &&& r == Err::<usize, OpError>(OpError::InvalidArgument)
                    &&& final(self)@ == old(self)@
                }))
            },
    {
        let idx = match self.find(id) {
            Some(i) => i,
            None => {
                return Err(OpError::BadHandle);
            },
        };
        let mut entry = self.files.remove(idx);
        let res = entry.1.seek(offset, whence);
        let ghost h2 = entry.1;
        self.files.insert(idx, entry);
        proof {
            assert(self.files@ =~= old(self).entries().update(idx as int, (id, h2)));
            lemma_map_of_update(old(self).entries(), idx as int, h2);
            lemma_update_keeps_wf(*old(self), *self, idx as int, h2);
            if h2@ == old(self)@[id] {
                assert(old(self)@.insert(id, h2@) =~= old(self)@);
            }
        }
        res
    }

    /// The served format carries no permission bits: a permission change
    /// on any open id succeeds and observably changes nothing.
    pub fn fchmod(&mut self, id: usize, mode: u16) -> (r: Result<usize, OpError>)
        requires
            old(self).wf(),
        ensures
            final(self).wf(),
            final(self).spec_name() == old(self).spec_name(),
            final(self).spec_engine() == old(self).spec_engine(),
            final(self).spec_next_id() == old(self).spec_next_id(),
            final(self)@ == old(self)@,
            !old(self)@.dom().contains(id) ==> r == Err::<usize, OpError>(OpError::BadHandle),
            old(self)@.dom().contains(id) ==> r == Ok::<usize, OpError>(0usize),
    {
        let idx = match self.find(id) {
            Some(i) => i,
            None => {
                return Err(OpError::BadHandle);
            },
        };
        let mut entry = self.files.remove(idx);
        let res = entry.1.fchmod(mode);
        let ghost h2 = entry.1;
        self.files.insert(idx, entry);
        proof {
            assert(self.files@ =~= old(self).entries().update(idx as int, (id, h2)));
            lemma_map_of_update(old(self).entries(), idx as int, h2);
            lemma_update_keeps_wf(*old(self), *self, idx as int, h2);
            assert(old(self)@.insert(id, h2@) =~= old(self)@);
        }
        res
    }

    /// The served format carries no ownership bits: an ownership change
    /// on any open id succeeds and observably changes nothing.
    pub fn fchown(&mut self, id: usize, uid: u32, gid: u32) -> (r: Result<usize, OpError>)
        requires
            old(self).wf(),
        ensures
            final(self).wf(),
            final(self).spec_name() == old(self).spec_name(),
            final(self).spec_engine() == old(self).spec_engine(),
            final(self).spec_next_id() == old(self).spec_next_id(),
            final(self)@ == old(self)@,
            !old(self)@.dom().contains(id) ==> r == Err::<usize, OpError>(OpError::BadHandle),
            old(self)@.dom().contains(id) ==> r == Ok::<usize, OpError>(0usize),
    {
        let idx = match self.find(id) {
            Some(i) => i,
            None => {
                return Err(OpError::BadHandle);
            },
        };
        let mut entry = self.files.remove(idx);
        let res = entry.1.fchown(uid, gid);
        let ghost h2 = entry.1;
        self.files.insert(idx, entry);
        proof {
            assert(self.files@ =~= old(self).entries().update(idx as int, (id, h2)));
            lemma_map_of_update(old(self).entries(), idx as int, h2);
            lemma_update_keeps_wf(*old(self), *self, idx as int, h2);
            assert(old(self)@.insert(id, h2@) =~= old(self)@);
        }
        res
    }

    /// Descriptor control is not served on a directory snapshot; nothing
    /// changes either way.
    pub fn fcntl(&mut self, id: usize, cmd: usize, arg: usize) -> (r: Result<usize, OpError>)
        requires
            old(self).wf(),
        ensures
            final(self).wf(),
            final(self).spec_name() == old(self).spec_name(),
            final(self).spec_engine() == old(self).spec_engine(),
            final(self).spec_next_id() == old(self).spec_next_id(),
            final(self)@ == old(self)@,
            !old(self)@.dom().contains(id) ==> r == Err::<usize, OpError>(OpError::BadHandle),
            old(self)@.dom().contains(id) ==> r == Err::<usize, OpError>(OpError::Unsupported),
    {
        let idx = match self.find(id) {
            Some(i) => i,
            None => {
                return Err(OpError::BadHandle);
            },
        };
        let mut entry = self.files.remove(idx);
        let res = entry.1.fcntl(cmd, arg);
        let ghost h2 = entry.1;
        self.files.insert(idx, entry);
        proof {
            assert(self.files@ =~= old(self).entries().update(idx as int, (id, h2)));
            lemma_map_of_update(old(self).entries(), idx as int, h2);
            lemma_update_keeps_wf(*old(self), *self, idx as int, h2);
            assert(old(self)@.insert(id, h2@) =~= old(self)@);
        }
        res
    }

    /// Writes `id`'s canonical path into the front of `buf` and returns
    /// how many bytes were written; the table itself does not change.
    pub fn path(&mut self, id: usize, buf: &mut Vec<u8>) -> (r: Result<usize, OpError>)
        requires
            old(self).wf(),
        ensures
            final(self).wf(),
            final(self).spec_name() == old(self).spec_name(),
            final(self).spec_engine() == old(self).spec_engine(),
            final(self).spec_next_id() == old(self).spec_next_id(),
            final(self)@ == old(self)@,
            final(buf)@.len() == old(buf)@.len(),
            !old(self)@.dom().contains(id) ==> r == Err::<usize, OpError>(OpError::BadHandle)
                && final(buf)@ == old(buf)@,
            old(self)@.dom().contains(id) ==> {
                let p = crate::resource::spec_path_bytes(old(self)@[id].path);
                let n = vstd::math::min(old(buf)@.len() as int, p.len() as int);
                &&& r == Ok::<usize, OpError>(n as usize)
                &&& forall|j: int| 0 <= j < n ==> final(buf)@[j] == p[j]
                &&& forall|j: int| n <= j < final(buf)@.len() ==> final(buf)@[j] == old(buf)@[j]
            },
    {
        let idx = match self.find(id) {
            Some(i) => i,
            None => {
                return Err(OpError::BadHandle);
            },
        };
        let mut entry = self.files.remove(idx);
        let res = entry.1.path(buf);
        let ghost h2 = entry.1;
        self.files.insert(idx, entry);
        proof {
            assert(self.files@ =~= old(self).entries().update(idx as int, (id, h2)));
            lemma_map_of_update(old(self).entries(), idx as int, h2);
            lemma_update_keeps_wf(*old(self), *self, idx as int, h2);
            assert(old(self)@.insert(id, h2@) =~= old(self)@);
        }
        res
    }

    /// Reports an open id's metadata into the caller's record: the block,
    /// the owning user id and the snapshot's byte size. No handle changes;
    /// an id that is not open fails with `BadHandle` and leaves the
    /// caller's record untouched.
    pub fn stat(&mut self, id: usize, st: &mut Stat) -> (r: Result<usize, OpError>)
        requires
            old(self).wf(),
        ensures
            final(self).wf(),
            final(self).spec_name() == old(self).spec_name(),
            final(self).spec_engine() == old(self).spec_engine(),
            final(self).spec_next_id() == old(self).spec_next_id(),
            final(self)@ == old(self)@,
            !old(self)@.dom().contains(id) ==> r == Err::<usize, OpError>(OpError::BadHandle)
                && *final(st) == *old(st),
            old(self)@.dom().contains(id) ==> r == Ok::<usize, OpError>(0usize) && *final(st)
                == spec_stat_of(old(self)@[id]),
    {
        let idx = match self.find(id) {
            Some(i) => i,
            None => {
                return Err(OpError::BadHandle);
            },
        };
        let mut entry = self.files.remove(idx);
        let res = entry.1.stat(st);
        let ghost h2 = entry.1;
        self.files.insert(idx, entry);
        proof {
            assert(self.files@ =~= old(self).entries().update(idx as int, (id, h2)));
            lemma_map_of_update(old(self).entries(), idx as int, h2);
            lemma_update_keeps_wf(*old(self), *self, idx as int, h2);
            assert(old(self)@.insert(id, h2@) =~= old(self)@);
        }
        res
    }

    /// A directory snapshot cannot be truncated; nothing changes either
    /// way.
    pub fn truncate(&mut self, id: usize, len: usize) -> (r: Result<usize, OpError>)
        requires
            old(self).wf(),
        ensures
            final(self).wf(),
            final(self).spec_name() == old(self).spec_name(),
            final(self).spec_engine() == old(self).spec_engine(),
            final(self).spec_next_id() == old(self).spec_next_id(),
            final(self)@ == old(self)@,
            !old(self)@.dom().contains(id) ==> r == Err::<usize, OpError>(OpError::BadHandle),
            old(self)@.dom().contains(id) ==> r == Err::<usize, OpError>(OpError::Unsupported),
    {
        let idx = match self.find(id) {
            Some(i) => i,
            None => {
                return Err(OpError::BadHandle);
            },
        };
        let mut entry = self.files.remove(idx);
        let res = entry.1.truncate(len);
        let ghost h2 = entry.1;
        self.files.insert(idx, entry);
        proof {
            assert(self.files@ =~= old(self).entries().update(idx as int, (id, h2)));
            lemma_map_of_update(old(self).entries(), idx as int, h2);
            lemma_update_keeps_wf(*old(self), *self, idx as int, h2);
            assert(old(self)@.insert(id, h2@) =~= old(self)@);
        }
        res
    }

    /// Directory timestamps are not served on a snapshot; nothing changes
    /// either way.
    pub fn utimens(&mut self, id: usize, times: &Vec<TimeSpec>) -> (r: Result<usize, OpError>)
        requires
            old(self).wf(),
        ensures
            final(self).wf(),
            final(self).spec_name() == old(self).spec_name(),
            final(self).spec_engine() == old(self).spec_engine(),
            final(self).spec_next_id() == old(self).spec_next_id(),
            final(self)@ == old(self)@,
            !old(self)@.dom().contains(id) ==> r == Err::<usize, OpError>(OpError::BadHandle),
            old(self)@.dom().contains(id) ==> r == Err::<usize, OpError>(OpError::Unsupported),
    {
        let idx = match self.find(id) {
            Some(i) => i,
            None => {
                return Err(OpError::BadHandle);
            },
        };
        let mut entry = self.files.remove(idx);
        let res = entry.1.utimens(times);
        let ghost h2 = entry.1;
        self.files.insert(idx, entry);
        proof {
            assert(self.files@ =~= old(self).entries().update(idx as int, (id, h2)));
            lemma_map_of_update(old(self).entries(), idx as int, h2);
            lemma_update_keeps_wf(*old(self), *self, idx as int, h2);
            assert(old(self)@.insert(id, h2@) =~= old(self)@);
        }
        res
    }
}

/// Resource ids are unique among currently-open handles: in any
/// well-formed table the open ids are pairwise distinct, each maps to a
/// handle, and every one of them is below the allocator's next id — so a
/// fresh allocation can never collide with an id that is still open.
pub proof fn lemma_open_ids_unique<F>(s: FileScheme<F>)
    requires
        s.wf(),
    ensures
        forall|i: int, j: int|
            0 <= i < j < s.ids().len() ==> #[trigger] s.ids()[i] != #[trigger] s.ids()[j],
        forall|i: int| 0 <= i < s.ids().len() ==> s@.dom().contains(#[trigger] s.ids()[i]),
        forall|i: int| 0 <= i < s.ids().len() ==> (#[trigger] s.ids()[i]) < s.spec_next_id(),
{
    assert forall|i: int|
        0 <= i < s.ids().len() implies s@.dom().contains(#[trigger] s.ids()[i]) && s.ids()[i]
        < s.spec_next_id() by {
        assert(s.ids()[i] == s.entries()[i].0);
        lemma_map_of_value(s.entries(), i);
    }
    assert forall|i: int, j: int|
        0 <= i < j < s.ids().len() implies #[trigger] s.ids()[i] != #[trigger] s.ids()[j] by {
        assert(s.ids()[i] == s.entries()[i].0);
        assert(s.ids()[j] == s.entries()[j].0);
    }
}

/// A duplicated handle observes the same content and cursor as its
/// original at duplication time, and the two are independent afterwards:
/// moving the duplicate's cursor leaves the original's view exactly as it
/// was, while the duplicate still observes the same underlying content.
pub proof fn lemma_dup_independent(m: Map<usize, DirView>, id: usize, nid: usize, c: int)
    requires
        m.dom().contains(id),
        !m.dom().contains(nid),
    ensures
        ({
            let dup = m.insert(nid, m[id]);
            let moved = dup.insert(nid, spec_dir_with_seek(dup[nid], c));
            &&& dup[nid] == dup[id]
            &&& moved[id] == m[id]
            &&& moved[nid].data == m[id].data
            &&& moved[nid].seek == c
        }),
{
}

/// An id, once closed, resolves to no handle at all: it is gone from the
/// table's map, and every operation's contract sends an absent id to
/// `BadHandle` with nothing changed.
pub proof fn lemma_closed_id_rejected(m: Map<usize, DirView>, id: usize)
    ensures
        !m.remove(id).dom().contains(id),
{
}

} // verus!
