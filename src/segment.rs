//! A byte buffer with a simpler interface over the block store: positions instead of
//! ranges, and deletion by start and end offsets.
use crate::split_vec::{
    blocks_bounded, blocks_nonempty, first_occurrence, splice_removed, Items, MutItems, Slices, SplitVec, StoreError,
};
use vstd::prelude::*;

verus! {

/// A byte buffer kept in bounded blocks.
pub struct Segment {
    vecs: SplitVec,
}

impl View for Segment {
    type V = Seq<u8>;

    closed spec fn view(&self) -> Seq<u8> {
        self.vecs@
    }
}

impl Segment {
    /// The contents of the blocks, in order.
    pub closed spec fn blocks(&self) -> Seq<Seq<u8>> {
        self.vecs.blocks()
    }

    /// The size from which a block is split before an insertion.
    pub closed spec fn max_size(&self) -> nat {
        self.vecs.max_size()
    }

    /// The underlying store is well formed.
    pub closed spec fn wf(&self) -> bool {
        self.vecs.wf()
    }

    /// An empty buffer.
    pub fn new() -> (r: Segment)
        ensures
            r.wf(),
            r@ == Seq::<u8>::empty(),
    {
        Segment { vecs: SplitVec::new() }
    }

    /// A buffer holding `values`.
    pub fn from_vec(values: Vec<u8>) -> (r: Segment)
        ensures
            r.wf(),
            r@ == values@,
    {
        Segment { vecs: SplitVec::from_vec(values) }
    }

    /// A buffer holding a copy of `values`.
    pub fn from_slice(values: &[u8]) -> (r: Segment)
        ensures
            r.wf(),
            r@ == values@,
    {
        Segment { vecs: SplitVec::from_slice(values) }
    }

    /// The number of bytes held.
    pub fn len(&self) -> (r: usize)
        requires
            self.wf(),
        ensures
            r == self@.len(),
    {
        self.vecs.len()
    }

    /// A walk over the bytes from `from` to `to`; one that runs past the end stops there.
    pub fn iter_range<'a>(&'a self, from: usize, to: usize) -> (r: Result<Items<'a>, StoreError>)
        requires
            self.wf(),
        ensures
            to < from ==> r == Err::<Items<'a>, StoreError>(StoreError::InvertedRange),
            from <= to && from > self@.len() ==> r == Err::<Items<'a>, StoreError>(
                StoreError::OutOfRange,
            ),
            from <= to && from <= self@.len() ==> r.is_ok() && r.unwrap().wf() && r.unwrap().rest()
                == splice_removed(self@, from as int, to as int),
    {
        self.vecs.iter_range(from..to)
    }

    /// A walk over the blocks, in order.
    pub fn iter_slices<'a>(&'a self) -> (r: Slices<'a>)
        requires
            self.wf(),
        ensures
            r.wf(),
            r.rest().flatten() == self@,
    {
        self.vecs.iter_slices()
    }

    /// Insert `values` at `offset`.
    pub fn insert(&mut self, offset: usize, values: &[u8]) -> (r: Result<(), StoreError>)
        requires
            old(self).wf(),
            old(self)@.len() + values@.len() <= usize::MAX,
        ensures
            final(self).wf(),
            offset <= old(self)@.len() ==> r == Ok::<(), StoreError>(()) && final(self)@ == old(
                self,
            )@.take(offset as int) + values@ + old(self)@.skip(offset as int),
            offset > old(self)@.len() ==> r == Err::<(), StoreError>(StoreError::OutOfRange)
                && final(self)@ == old(self)@,
            final(self).max_size() == old(self).max_size(),
            values@.len() == 0 ==> final(self).blocks() == old(self).blocks(),
            blocks_nonempty(old(self).blocks()) ==> blocks_nonempty(final(self).blocks()),
            blocks_bounded(old(self).blocks(), old(self).max_size() as int) ==> blocks_bounded(
                final(self).blocks(),
                old(self).max_size() as int,
            ),
    {
        self.vecs.insert(offset, values)
    }

    /// Take out the bytes from `start_offset` to `end_offset` and return them.
    pub fn move_out_slice(&mut self, start_offset: usize, end_offset: usize) -> (r: Result<
        Vec<u8>,
        StoreError,
    >)
        requires
            old(self).wf(),
        ensures
            final(self).wf(),
            end_offset < start_offset ==> r == Err::<Vec<u8>, StoreError>(
                StoreError::InvertedRange,
            ) && final(self)@ == old(self)@,
            start_offset <= end_offset && end_offset > old(self)@.len() ==> r == Err::<
                Vec<u8>,
                StoreError,
            >(StoreError::OutOfRange) && final(self)@ == old(self)@,
            start_offset <= end_offset <= old(self)@.len() ==> r.is_ok() && r.unwrap()@ == old(
                self,
            )@.subrange(start_offset as int, end_offset as int) && final(self)@ == old(
                self,
            )@.take(start_offset as int) + old(self)@.skip(end_offset as int),
            final(self).max_size() == old(self).max_size(),
            blocks_nonempty(old(self).blocks()) ==> blocks_nonempty(final(self).blocks()),
            blocks_bounded(old(self).blocks(), old(self).max_size() as int) ==> blocks_bounded(
                final(self).blocks(),
                old(self).max_size() as int,
            ),
    {
        self.vecs.move_out(start_offset..end_offset)
    }

    /// A walk that writes over the bytes from `from` to `to`, one at a time through
    /// `write_next`; one that runs past the end stops there.
    pub fn mut_iter_range(&self, from: usize, to: usize) -> (r: Result<MutItems, StoreError>)
        requires
            self.wf(),
        ensures
            to < from ==> r == Err::<MutItems, StoreError>(StoreError::InvertedRange),
            from <= to && from > self@.len() ==> r == Err::<MutItems, StoreError>(
                StoreError::OutOfRange,
            ),
            from <= to && from <= self@.len() ==> r.is_ok() && self.walk_ok(r.unwrap())
                && self.walk_pos(r.unwrap()) == from && r.unwrap().remaining()
                == splice_removed(self@, from as int, to as int).len(),
    {
        self.vecs.mut_iter_range(from..to)
    }

    /// `walk` is positioned inside this buffer.
    pub closed spec fn walk_ok(&self, walk: MutItems) -> bool {
        walk.wf_for(&self.vecs)
    }

    /// The position of the next byte that `walk` writes.
    pub closed spec fn walk_pos(&self, walk: MutItems) -> int {
        walk.next_pos(&self.vecs)
    }

    /// Write `value` over the next byte of `walk` and return the byte that was there;
    /// `None`, with nothing written, when the walk is exhausted.
    pub fn write_next(&mut self, walk: &mut MutItems, value: u8) -> (r: Option<u8>)
        requires
            old(self).walk_ok(*old(walk)),
        ensures
            final(self).walk_ok(*final(walk)),
            final(self).wf(),
            final(self).blocks().len() == old(self).blocks().len(),
            old(walk).remaining() == 0 ==> r == None::<u8> && final(self)@ == old(self)@
                && final(walk).remaining() == 0,
            old(walk).remaining() > 0 ==> ({
                let p = old(self).walk_pos(*old(walk));
                &&& 0 <= p < old(self)@.len()
                &&& r == Some(old(self)@[p])
                &&& final(self)@ == old(self)@.update(p, value)
                &&& final(self).walk_pos(*final(walk)) == p + 1
                &&& final(walk).remaining() == old(walk).remaining() - 1
            }),
    {
        walk.replace_next(&mut self.vecs, value)
    }

    /// The first position where `needle` occurs.
    pub fn find_slice(&self, needle: &[u8]) -> (r: Option<usize>)
        requires
            self.wf(),
        ensures
            match r {
                Some(p) => first_occurrence(self@, needle@, 0) == Some(p as int),
                None => first_occurrence(self@, needle@, 0) == None::<int>,
            },
    {
        self.vecs.find_slice(needle)
    }

    /// The first position at or after `from` where `needle` occurs.
    pub fn find_slice_from(&self, from: usize, needle: &[u8]) -> (r: Option<usize>)
        requires
            self.wf(),
        ensures
            match r {
                Some(p) => first_occurrence(self@, needle@, from as int) == Some(p as int),
                None => first_occurrence(self@, needle@, from as int) == None::<int>,
            },
    {
        self.vecs.find_slice_from(from, needle)
    }
}

/// A byte buffer that an editor reads and changes by offsets.
pub trait Buffer {
    /// The bytes held.
    spec fn bytes(&self) -> Seq<u8>;

    /// The buffer is in a usable state.
    spec fn usable(&self) -> bool;

    /// Write `val` over the bytes from `offset` on. Returns the bytes that were there.
    fn write(&mut self, offset: usize, val: &[u8]) -> (r: Result<Vec<u8>, StoreError>)
        requires
            old(self).usable(),
        ensures
            final(self).usable(),
            offset + val@.len() <= old(self).bytes().len() ==> r.is_ok() && r.unwrap()@ == old(
                self,
            ).bytes().subrange(offset as int, offset + val@.len()) && final(self).bytes() == old(
                self,
            ).bytes().take(offset as int) + val@ + old(self).bytes().skip(offset + val@.len()),
            offset + val@.len() > old(self).bytes().len() ==> r == Err::<Vec<u8>, StoreError>(
                StoreError::OutOfRange,
            ) && final(self).bytes() == old(self).bytes(),
    ;

    /// A copy of `len` bytes from `offset` on; a range past the end stops at the end.
    fn read(&self, offset: usize, len: usize) -> (r: Result<Vec<u8>, StoreError>)
        requires
            self.usable(),
        ensures
            offset <= self.bytes().len() ==> r.is_ok() && r.unwrap()@ == splice_removed(
                self.bytes(),
                offset as int,
                offset + len,
            ),
            offset > self.bytes().len() ==> r == Err::<Vec<u8>, StoreError>(
                StoreError::OutOfRange,
            ),
    ;

    /// The first position at or after `offset` where `needle` occurs.
    fn find_from(&self, offset: usize, needle: &[u8]) -> (r: Option<usize>)
        requires
            self.usable(),
        ensures
            match r {
                Some(p) => first_occurrence(self.bytes(), needle@, offset as int) == Some(p as int),
                None => first_occurrence(self.bytes(), needle@, offset as int) == None::<int>,
            },
    ;

    /// Take out the bytes from `start_offset` to `end_offset` and return them.
    fn remove(&mut self, start_offset: usize, end_offset: usize) -> (r: Result<
        Vec<u8>,
        StoreError,
    >)
        requires
            old(self).usable(),
        ensures
            final(self).usable(),
            start_offset <= end_offset <= old(self).bytes().len() ==> r.is_ok() && r.unwrap()@
                == old(self).bytes().subrange(start_offset as int, end_offset as int) && final(self).bytes() == old(self).bytes().take(start_offset as int) + old(self).bytes().skip(
                end_offset as int,
            ),
            !(start_offset <= end_offset <= old(self).bytes().len()) ==> r.is_err() && final(self).bytes() == old(self).bytes(),
    ;
}

impl Buffer for Segment {
    open spec fn bytes(&self) -> Seq<u8> {
        self@
    }

    open spec fn usable(&self) -> bool {
        self.wf()
    }

    fn write(&mut self, offset: usize, val: &[u8]) -> (r: Result<Vec<u8>, StoreError>) {
        self.vecs.copy_in(offset, val)
    }

    fn read(&self, offset: usize, len: usize) -> (r: Result<Vec<u8>, StoreError>) {
        let total = self.vecs.len();
        let to = if offset > total {
            offset
        } else if len > total - offset {
            total
        } else {
            offset + len
        };
        self.vecs.copy_out(offset..to)
    }

    fn find_from(&self, offset: usize, needle: &[u8]) -> (r: Option<usize>) {
        self.vecs.find_slice_from(offset, needle)
    }

    fn remove(&mut self, start_offset: usize, end_offset: usize) -> (r: Result<
        Vec<u8>,
        StoreError,
    >) {
        self.move_out_slice(start_offset, end_offset)
    }
}

} // verus!
