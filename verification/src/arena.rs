use vstd::prelude::*;
use crate::mem_align::{MemAlign, align_up, lemma_align_up_bounds};

verus! {

/// Location of a payload inside an [`Arena`]: its byte offset and its length.
#[derive(Clone, Copy, Debug, PartialEq, Eq, Structural)]
pub struct ArenaIndex {
    pub offset: u32,
    pub size: u32,
}

impl ArenaIndex {
    /// Creates an index for `size` bytes starting at `offset`.
    pub fn new(offset: u32, size: u32) -> (r: Self)
        ensures
            r.offset == offset,
            r.size == size,
    {
        ArenaIndex { offset, size }
    }

    /// One past the last byte of the payload.
    pub open spec fn end(self) -> int {
        self.offset + self.size
    }
}

/// Append-only byte storage shared by the values of one map.
///
/// Payloads are appended at increasing, aligned offsets. Clearing only rewinds the write
/// offset; the buffer and its capacity are kept for later writes.
pub struct Arena {
    data: Vec<u8>,
    current_offset: usize,
}

/// The buffer after `buf` was written at `start` into `data`, which first grows (with
/// zeros) to `new_len` bytes if it is shorter.
pub open spec fn spec_written(data: Seq<u8>, new_len: int, start: int, buf: Seq<u8>) -> Seq<u8> {
    Seq::new(
        new_len as nat,
        |i: int|
            if start <= i < start + buf.len() {
                buf[i - start]
            } else if i < data.len() {
                data[i]
            } else {
                0u8
            },
    )
}

/// `data` with the bytes from `start` on replaced by `buf`.
pub open spec fn spec_overwritten(data: Seq<u8>, start: int, buf: Seq<u8>) -> Seq<u8> {
    Seq::new(
        data.len(),
        |i: int|
            if start <= i < start + buf.len() {
                buf[i - start]
            } else {
                data[i]
            },
    )
}

/// Length of the buffer after a payload ending at `end` was stored: the old length, or
/// `end` rounded up to a multiple of sixteen bytes if that is longer.
pub open spec fn spec_grown_len(old_len: int, end: int) -> int {
    let rounded = ((end + 15) / 16) * 16;
    if rounded > old_len {
        rounded
    } else {
        old_len
    }
}

impl Arena {
    /// The whole buffer, including bytes past the write offset.
    pub closed spec fn bytes(&self) -> Seq<u8> {
        self.data@
    }

    /// Number of bytes in use (the write offset).
    pub closed spec fn used(&self) -> nat {
        self.current_offset as nat
    }

    /// The write offset never passes the end of the buffer.
    pub open spec fn wf(&self) -> bool {
        self.used() <= self.bytes().len()
    }

    /// The bytes of `index`, when it lies within the used part of the arena.
    pub open spec fn region(&self, index: ArenaIndex) -> Seq<u8> {
        self.bytes().subrange(index.offset as int, index.end())
    }

    /// Whether `index` lies within the used part of the arena.
    pub open spec fn holds(&self, index: ArenaIndex) -> bool {
        index.end() <= self.used()
    }

    /// `len` bytes aligned to `align` can still be placed so that their offset and length fit
    /// the 32-bit fields of an [`ArenaIndex`].
    pub open spec fn has_room(&self, len: nat, align: MemAlign) -> bool {
        &&& align_up(self.used() as int, align.spec_bytes() as int) + len <= u32::MAX
        &&& align_up(self.used() as int, align.spec_bytes() as int) + len + 16 <= usize::MAX
    }

    /// `self` is `old` with more bytes appended: what was in use is unchanged.
    pub open spec fn extends(&self, old: &Arena) -> bool {
        &&& old.used() <= self.used()
        &&& old.used() <= self.bytes().len()
        &&& self.bytes().subrange(0, old.used() as int) == old.bytes().subrange(0, old.used() as int)
    }

    /// Creates an empty arena.
    pub fn new() -> (r: Self)
        ensures
            r.wf(),
            r.used() == 0,
            r.bytes() == Seq::<u8>::empty(),
    {
        Arena { data: Vec::new(), current_offset: 0 }
    }

    /// Number of bytes in use.
    pub fn len(&self) -> (r: usize)
        ensures
            r == self.used(),
    {
        self.current_offset
    }

    /// Appends `buf` at the next offset aligned to `align` and returns where it was put.
    pub fn store(&mut self, buf: &[u8], align: MemAlign) -> (r: ArenaIndex)
        requires
            old(self).wf(),
            old(self).has_room(buf@.len(), align),
        ensures
            final(self).wf(),
            r.offset == align_up(old(self).used() as int, align.spec_bytes() as int),
            r.size == buf@.len(),
            final(self).used() == r.end(),
            final(self).bytes() == spec_written(
                old(self).bytes(),
                spec_grown_len(old(self).bytes().len() as int, r.end()),
                r.offset as int,
                buf@,
            ),
            final(self).extends(old(self)),
            final(self).holds(r),
            final(self).region(r) == buf@,
    {
        proof {
            lemma_align_up_bounds(self.current_offset as int, align.spec_bytes() as int);
        }
        let start = align.align_offset(self.current_offset);
        let end = start + buf.len();
        let data_len = (end + 15) / 16 * 16;
        let ghost old_data = self.data@;
        if data_len > self.data.len() {
            self.data.resize(data_len, 0u8);
        }
        let ghost grown = self.data@;
        assert(grown.len() == spec_grown_len(old_data.len() as int, end as int));
        assert forall|i: int| 0 <= i < grown.len() implies #[trigger] grown[i] == (if i < old_data.len() {
            old_data[i]
        } else {
            0u8
        }) by {
            if i >= old_data.len() {
                assert(vstd::pervasive::cloned::<u8>(0u8, grown[i]));
            }
        }
        let mut i: usize = 0;
        while i < buf.len()
            invariant
                0 <= i <= buf@.len(),
                start + buf@.len() == end,
                end <= grown.len(),
                self.data@.len() == grown.len(),
                forall|j: int|
                    0 <= j < grown.len() ==> #[trigger] self.data@[j] == (if start <= j < start + i {
                        buf@[j - start]
                    } else {
                        grown[j]
                    }),
            decreases buf@.len() - i,
        {
            self.data.set(start + i, buf[i]);
            i = i + 1;
        }
        self.current_offset = end;
        let r = ArenaIndex::new(start as u32, buf.len() as u32);
        proof {
            let target = spec_written(old_data, spec_grown_len(old_data.len() as int, end as int), start as int, buf@);
            assert(self.data@ =~= target);
            assert(self.data@.subrange(0, old(self).used() as int) =~= old_data.subrange(0, old(self).used() as int));
            assert(self.data@.subrange(start as int, end as int) =~= buf@);
        }
        r
    }

    /// Rewinds the arena to empty; the buffer and its capacity are kept.
    pub fn clear(&mut self)
        ensures
            final(self).wf(),
            final(self).used() == 0,
            final(self).bytes() == old(self).bytes(),
    {
        self.current_offset = 0;
    }

    /// Returns the bytes of `index`, or `None` if they lie past the used part of the arena.
    pub fn get(&self, index: ArenaIndex) -> (r: Option<&[u8]>)
        requires
            self.wf(),
        ensures
            r is Some <==> self.holds(index),
            r matches Some(b) ==> b@ == self.region(index),
    {
        let start = index.offset as usize;
        let size = index.size as usize;
        if size > self.current_offset || start > self.current_offset - size {
            None
        } else {
            Some(vstd::slice::slice_subrange(self.data.as_slice(), start, start + size))
        }
    }

    /// Overwrites the bytes of `index` with `buf`, in place.
    ///
    /// Returns `false`, and changes nothing, when `index` lies past the used part of the
    /// arena or `buf` is not exactly as long as the payload.
    pub fn write(&mut self, index: ArenaIndex, buf: &[u8]) -> (r: bool)
        requires
            old(self).wf(),
        ensures
            final(self).wf(),
            final(self).used() == old(self).used(),
            r == (old(self).holds(index) && buf@.len() == index.size),
            r ==> final(self).bytes() == spec_overwritten(old(self).bytes(), index.offset as int, buf@),
            !r ==> final(self).bytes() == old(self).bytes(),
    {
        let start = index.offset as usize;
        let size = index.size as usize;
        if size > self.current_offset || start > self.current_offset - size || buf.len() != size {
            return false;
        }
        let ghost old_data = self.data@;
        let mut i: usize = 0;
        while i < size
            invariant
                0 <= i <= size,
                size == buf@.len(),
                start + size <= self.current_offset,
                self.current_offset == old(self).current_offset,
                old(self).current_offset <= old_data.len(),
                self.data@.len() == old_data.len(),
                forall|j: int|
                    0 <= j < old_data.len() ==> #[trigger] self.data@[j] == (if start <= j < start + i {
                        buf@[j - start]
                    } else {
                        old_data[j]
                    }),
            decreases size - i,
        {
            self.data.set(start + i, buf[i]);
            i = i + 1;
        }
        assert(self.data@ =~= spec_overwritten(old_data, start as int, buf@));
        true
    }

    /// Bytes held by the arena: its buffer's capacity plus the arena itself. The capacity is
    /// the allocator's choice, so only a lower bound is stated.
    pub fn allocated_size(&self) -> (r: usize)
        ensures
            r >= self.bytes().len(),
    {
        crate::capacity::vec_capacity(&self.data).saturating_add(core::mem::size_of::<Arena>())
    }
}

} // verus!
