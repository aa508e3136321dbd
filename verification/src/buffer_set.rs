//! The open buffers, keyed by id. A file is open in at most one buffer.

use vstd::prelude::*;
use crate::id::BufferId;
use crate::buffer::Buffer;

verus! {

/// The open buffers, in the order their ids were minted.
#[derive(Debug)]
pub struct BufferSet {
    buffers: Vec<Buffer>,
    next_id: u64,
}

/// `b` is the buffer over the file `path`.
pub open spec fn has_path(b: Buffer, path: Seq<char>) -> bool {
    b.path matches Some(p) && p@ == path
}

impl BufferSet {
    /// The buffers, oldest first.
    pub closed spec fn spec_buffers(&self) -> Seq<Buffer> {
        self.buffers@
    }

    /// The last id minted (0 before the first).
    pub closed spec fn spec_next_id(&self) -> u64 {
        self.next_id
    }

    /// The ids of the open buffers, oldest first.
    pub open spec fn spec_ids(&self) -> Seq<BufferId> {
        self.spec_buffers().map_values(|b: Buffer| b.id)
    }

    /// Some buffer has id `id`.
    pub open spec fn has_id(&self, id: BufferId) -> bool {
        exists|i: int| 0 <= i < self.spec_buffers().len() && #[trigger] self.spec_buffers()[i].id == id
    }

    /// Ids strictly increase and none is above the counter; no two buffers
    /// are over the same file.
    pub open spec fn wf(&self) -> bool {
        let bs = self.spec_buffers();
        &&& forall|i: int, j: int| 0 <= i < j < bs.len() ==> #[trigger] bs[i].id.0 < #[trigger] bs[j].id.0
        &&& forall|i: int| 0 <= i < bs.len() ==> #[trigger] bs[i].id.0 <= self.spec_next_id()
        &&& forall|i: int, j: int|
            0 <= i < j < bs.len() && (#[trigger] bs[i]).path is Some && (#[trigger] bs[j]).path is Some
                ==> bs[i].path.unwrap()@ != bs[j].path.unwrap()@
    }

    /// No buffers; no id minted yet.
    pub fn new() -> (s: Self)
        ensures
            s.wf(),
            s.spec_buffers() == Seq::<Buffer>::empty(),
            s.spec_next_id() == 0,
    {
        BufferSet { buffers: Vec::new(), next_id: 0 }
    }

    /// Another id can still be minted.
    pub fn has_ids_left(&self) -> (b: bool)
        ensures
            b == (self.spec_next_id() < u64::MAX),
    {
        self.next_id < u64::MAX
    }

    /// Mint the next id.
    pub fn next_id(&mut self) -> (id: BufferId)
        requires
            old(self).spec_next_id() < u64::MAX,
        ensures
            final(self).spec_next_id() == old(self).spec_next_id() + 1,
            id == BufferId(final(self).spec_next_id()),
            final(self).spec_buffers() == old(self).spec_buffers(),
            old(self).wf() ==> final(self).wf(),
    {
        self.next_id = self.next_id + 1;
        BufferId(self.next_id)
    }

    /// The buffer over the file `path`, if one is open.
    pub fn find_by_path(&self, path: &str) -> (r: Option<BufferId>)
        ensures
            r is Some <==> exists|i: int|
                0 <= i < self.spec_buffers().len() && #[trigger] has_path(self.spec_buffers()[i], path@),
            r matches Some(id) ==> exists|i: int|
                0 <= i < self.spec_buffers().len() && has_path(self.spec_buffers()[i], path@)
                    && #[trigger] self.spec_buffers()[i].id == id,
    {
        let n = self.buffers.len();
        let mut i: usize = 0;
        while i < n
            invariant
                i <= n,
                n == self.spec_buffers().len(),
                forall|k: int| 0 <= k < i ==> !#[trigger] has_path(self.spec_buffers()[k], path@),
            decreases n - i,
        {
            let b = &self.buffers[i];
            match &b.path {
                Some(p) => {
                    if crate::text::str_eq(p.as_str(), path) {
                        assert(has_path(self.spec_buffers()[i as int], path@));
                        return Some(b.id);
                    }
                },
                None => {},
            }
            i += 1;
        }
        None
    }

    /// The buffer over the file `path`, holding `src`, what was read from
    /// it. A file already open is not opened twice: its buffer's id comes
    /// back and `src` is not used.
    pub fn open_with(&mut self, path: &str, src: &str) -> (id: BufferId)
        requires
            old(self).wf(),
            old(self).spec_next_id() < u64::MAX,
        ensures
            final(self).wf(),
            (exists|i: int|
                0 <= i < old(self).spec_buffers().len() && #[trigger] has_path(
                    old(self).spec_buffers()[i],
                    path@,
                )) ==> {
                &&& final(self).spec_buffers() == old(self).spec_buffers()
                &&& final(self).spec_next_id() == old(self).spec_next_id()
                &&& exists|i: int|
                    0 <= i < old(self).spec_buffers().len() && has_path(
                        old(self).spec_buffers()[i],
                        path@,
                    ) && #[trigger] old(self).spec_buffers()[i].id == id
            },
            !(exists|i: int|
                0 <= i < old(self).spec_buffers().len() && #[trigger] has_path(
                    old(self).spec_buffers()[i],
                    path@,
                )) ==> {
                &&& id == BufferId((old(self).spec_next_id() + 1) as u64)
                &&& final(self).spec_next_id() == old(self).spec_next_id() + 1
                &&& final(self).spec_buffers().len() == old(self).spec_buffers().len() + 1
                &&& final(self).spec_buffers().drop_last() == old(self).spec_buffers()
                &&& final(self).spec_buffers().last().id == id
                &&& has_path(final(self).spec_buffers().last(), path@)
                &&& final(self).spec_buffers().last().text() == src@
                &&& !final(self).spec_buffers().last().modified
            },
    {
        match self.find_by_path(path) {
            Some(id) => id,
            None => {
                let id = self.next_id();
                let b = Buffer::from_file(id, path, src);
                self.buffers.push(b);
                assert(self.spec_buffers().drop_last() =~= old(self).spec_buffers());
                let ghost bs = self.spec_buffers();
                let ghost n = old(self).spec_buffers().len() as int;
                assert forall|i: int, j: int|
                    0 <= i < j < bs.len() && (#[trigger] bs[i]).path is Some
                        && (#[trigger] bs[j]).path is Some implies bs[i].path.unwrap()@
                    != bs[j].path.unwrap()@ by {
                    if j == n {
                        assert(bs[i] == old(self).spec_buffers()[i]);
                        assert(!has_path(old(self).spec_buffers()[i], path@));
                    } else {
                        assert(bs[i] == old(self).spec_buffers()[i]);
                        assert(bs[j] == old(self).spec_buffers()[j]);
                    }
                }
                id
            },
        }
    }

    /// A new pathless buffer holding `src`. Scratch buffers are never
    /// merged: each call mints a new id.
    pub fn scratch(&mut self, src: &str) -> (id: BufferId)
        requires
            old(self).wf(),
            old(self).spec_next_id() < u64::MAX,
        ensures
            final(self).wf(),
            id == BufferId((old(self).spec_next_id() + 1) as u64),
            final(self).spec_next_id() == old(self).spec_next_id() + 1,
            final(self).spec_buffers().drop_last() == old(self).spec_buffers(),
            final(self).spec_buffers().len() == old(self).spec_buffers().len() + 1,
            final(self).spec_buffers().last().id == id,
            final(self).spec_buffers().last().path is None,
            final(self).spec_buffers().last().text() == src@,
    {
        let id = self.next_id();
        let b = Buffer::from_str(id, src);
        self.buffers.push(b);
        assert(self.spec_buffers().drop_last() =~= old(self).spec_buffers());
        id
    }

    /// The buffer with id `id`, if open.
    pub fn get(&self, id: BufferId) -> (r: Option<&Buffer>)
        ensures
            r is Some <==> self.has_id(id),
            r matches Some(b) ==> b.id == id && self.spec_buffers().contains(*b),
    {
        let n = self.buffers.len();
        let mut i: usize = 0;
        while i < n
            invariant
                i <= n,
                n == self.spec_buffers().len(),
                forall|k: int| 0 <= k < i ==> #[trigger] self.spec_buffers()[k].id != id,
            decreases n - i,
        {
            if self.buffers[i].id == id {
                assert(self.spec_buffers()[i as int].id == id);
                return Some(&self.buffers[i]);
            }
            i += 1;
        }
        None
    }

    /// The index of the buffer with id `id`, if open.
    fn index_of(&self, id: BufferId) -> (r: Option<usize>)
        ensures
            r is Some <==> self.has_id(id),
            r matches Some(i) ==> i < self.spec_buffers().len() && self.spec_buffers()[i as int].id
                == id,
    {
        let n = self.buffers.len();
        let mut i: usize = 0;
        while i < n
            invariant
                i <= n,
                n == self.spec_buffers().len(),
                forall|k: int| 0 <= k < i ==> #[trigger] self.spec_buffers()[k].id != id,
            decreases n - i,
        {
            if self.buffers[i].id == id {
                return Some(i);
            }
            i += 1;
        }
        None
    }

    /// The buffer with id `id`, if open, to change in place.
    pub fn get_mut(&mut self, id: BufferId) -> (r: Option<&mut Buffer>)
        ensures
            r is Some <==> old(self).has_id(id),
            final(self).spec_next_id() == old(self).spec_next_id(),
            r is None ==> final(self).spec_buffers() == old(self).spec_buffers(),
            r matches Some(b) ==> exists|i: int|
                0 <= i < old(self).spec_buffers().len() && #[trigger] old(self).spec_buffers()[i].id
                    == id && *b == old(self).spec_buffers()[i] && final(self).spec_buffers()
                    == old(self).spec_buffers().update(i, *final(b)),
    {
        match self.index_of(id) {
            None => None,
            Some(i) => Some(&mut self.buffers[i]),
        }
    }

    /// The ids of the open buffers, in increasing order.
    pub fn ids(&self) -> (v: Vec<BufferId>)
        ensures
            v@ == self.spec_ids(),
    {
        let n = self.buffers.len();
        let mut v: Vec<BufferId> = Vec::new();
        let mut i: usize = 0;
        while i < n
            invariant
                i <= n,
                n == self.spec_buffers().len(),
                v@ == self.spec_buffers().subrange(0, i as int).map_values(|b: Buffer| b.id),
            decreases n - i,
        {
            v.push(self.buffers[i].id);
            assert(v@ =~= self.spec_buffers().subrange(0, i + 1).map_values(|b: Buffer| b.id));
            i += 1;
        }
        assert(self.spec_buffers().subrange(0, n as int) =~= self.spec_buffers());
        v
    }
}

} // verus!
