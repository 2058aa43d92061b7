//! A `Vec`-like byte container for large sizes, split into bounded blocks.
use vstd::prelude::*;
use vstd::seq_lib::lemma_flatten_concat;

verus! {

/// Default size that an oversized block is cut down to: 1 MiB.
pub const MIN_BLOCK_SIZE: usize = 1048576;

/// Default size from which a block is split before an insertion: 4 MiB.
pub const MAX_BLOCK_SIZE: usize = 4194304;

/// Why an operation on the store was refused.
#[derive(Clone, Copy, Debug, PartialEq, Eq, Structural)]
pub enum StoreError {
    /// An offset or a range lies outside the current content.
    OutOfRange,
    /// A range ends before it starts.
    InvertedRange,
}

/// The contents of a sequence of byte vectors, one sequence per block.
pub open spec fn blocks_of(vecs: Seq<Vec<u8>>) -> Seq<Seq<u8>> {
    vecs.map_values(|v: Vec<u8>| v@)
}

/// The number of bytes held by the blocks before block `i`.
pub open spec fn prefix_len(blocks: Seq<Seq<u8>>, i: int) -> int {
    blocks.take(i).flatten().len() as int
}

/// Every block holds at most `bound` bytes.
pub open spec fn blocks_bounded(blocks: Seq<Seq<u8>>, bound: int) -> bool {
    forall|k: int| 0 <= k < blocks.len() ==> (#[trigger] blocks[k]).len() <= bound
}

/// No block is empty.
pub open spec fn blocks_nonempty(blocks: Seq<Seq<u8>>) -> bool {
    forall|k: int| 0 <= k < blocks.len() ==> (#[trigger] blocks[k]).len() > 0
}

/// `needle` occurs in `hay` at position `i`.
pub open spec fn occurs_at(hay: Seq<u8>, needle: Seq<u8>, i: int) -> bool {
    0 <= i && i + needle.len() <= hay.len() && hay.subrange(i, i + needle.len()) == needle
}

/// The first position at or after `from`, and before the end of `hay`, where `needle`
/// occurs; `None` when there is none.
pub open spec fn first_occurrence(hay: Seq<u8>, needle: Seq<u8>, from: int) -> Option<int> {
    if exists|i: int| from <= i < hay.len() && occurs_at(hay, needle, i) {
        let i = choose|i: int|
            from <= i < hay.len() && occurs_at(hay, needle, i) && forall|j: int|
                from <= j < i ==> !occurs_at(hay, needle, j);
        Some(i)
    } else {
        None
    }
}

/// A first occurrence lies at or after `from` and before the end of `hay`.
pub proof fn lemma_first_occurrence_bounds(hay: Seq<u8>, needle: Seq<u8>, from: int)
    ensures
        match first_occurrence(hay, needle, from) {
            Some(p) => from <= p < hay.len(),
            None => true,
        },
{
    if exists|i: int| from <= i < hay.len() && occurs_at(hay, needle, i) {
        let j = choose|i: int| from <= i < hay.len() && occurs_at(hay, needle, i);
        lemma_first_exists(hay, needle, from, j);
    }
}

/// What `splice` leaves: `values` in place of the part of `[from, to)` that exists.
pub open spec fn spliced(s: Seq<u8>, from: int, to: int, values: Seq<u8>) -> Seq<u8> {
    let end = if to < s.len() { to } else { s.len() as int };
    s.take(from) + values + s.skip(end)
}

/// What `splice` removes: the part of `[from, to)` that exists.
pub open spec fn splice_removed(s: Seq<u8>, from: int, to: int) -> Seq<u8> {
    let end = if to < s.len() { to } else { s.len() as int };
    s.subrange(from, end)
}

proof fn lemma_flatten_cons(x: Seq<u8>, rest: Seq<Seq<u8>>)
    ensures
        (seq![x] + rest).flatten() == x + rest.flatten(),
{
    let s = seq![x] + rest;
    assert(s.first() == x);
    assert(s.drop_first() =~= rest);
}

/// The content of the blocks is what lies before block `i`, block `i`, and what follows it.
proof fn lemma_split_at(b: Seq<Seq<u8>>, i: int)
    requires
        0 <= i < b.len(),
    ensures
        b.flatten() == b.take(i).flatten() + b[i] + b.skip(i + 1).flatten(),
{
    assert(b =~= b.take(i) + (seq![b[i]] + b.skip(i + 1)));
    lemma_flatten_concat(b.take(i), seq![b[i]] + b.skip(i + 1));
    lemma_flatten_cons(b[i], b.skip(i + 1));
    assert((b.take(i).flatten() + b[i]) + b.skip(i + 1).flatten() =~= b.take(i).flatten() + (b[i]
        + b.skip(i + 1).flatten()));
}

proof fn lemma_prefix_step(b: Seq<Seq<u8>>, i: int)
    requires
        0 <= i < b.len(),
    ensures
        prefix_len(b, i + 1) == prefix_len(b, i) + b[i].len(),
        b.take(i + 1).flatten() == b.take(i).flatten() + b[i],
{
    assert(b.take(i + 1) =~= b.take(i).push(b[i]));
    b.take(i).lemma_flatten_push(b[i]);
}

proof fn lemma_prefix_total(b: Seq<Seq<u8>>)
    ensures
        prefix_len(b, b.len() as int) == b.flatten().len(),
{
    assert(b.take(b.len() as int) =~= b);
}

proof fn lemma_prefix_mono(b: Seq<Seq<u8>>, i: int, j: int)
    requires
        0 <= i <= j <= b.len(),
    ensures
        prefix_len(b, i) <= prefix_len(b, j),
    decreases j - i,
{
    if i < j {
        lemma_prefix_step(b, j - 1);
        lemma_prefix_mono(b, i, j - 1);
    }
}

/// Byte `j` of block `i` sits at offset `prefix_len(b, i) + j` of the content.
proof fn lemma_flatten_index(b: Seq<Seq<u8>>, i: int, j: int)
    requires
        0 <= i < b.len(),
        0 <= j < b[i].len(),
    ensures
        prefix_len(b, i) + b[i].len() <= b.flatten().len(),
        b.flatten()[prefix_len(b, i) + j] == b[i][j],
{
    lemma_split_at(b, i);
}

/// A vector of bytes split into blocks, so that an insertion or a deletion touches a
/// bounded amount of data however large the whole content is.
pub struct SplitVec {
    vecs: Vec<Vec<u8>>,
    length: usize,
    min_block: usize,
    max_block: usize,
}

/// A position given as a block and an offset inside that block.
#[derive(Clone, Copy, Debug)]
struct Index {
    outer: usize,
    inner: usize,
}

impl View for SplitVec {
    type V = Seq<u8>;

    /// The content: the blocks one after the other.
    closed spec fn view(&self) -> Seq<u8> {
        self.blocks().flatten()
    }
}

impl SplitVec {
    /// The contents of the blocks, in order.
    pub closed spec fn blocks(&self) -> Seq<Seq<u8>> {
        blocks_of(self.vecs@)
    }

    /// The size that an oversized block is cut down to.
    pub closed spec fn min_size(&self) -> nat {
        self.min_block as nat
    }

    /// The size from which a block is split before an insertion.
    pub closed spec fn max_size(&self) -> nat {
        self.max_block as nat
    }

    /// The cached length matches the content and the block sizes are usable.
    pub closed spec fn wf(&self) -> bool {
        &&& self.length == self@.len()
        &&& 0 < self.min_block < self.max_block
    }

    spec fn index_ok(&self, idx: Index, pos: int, for_insert: bool) -> bool {
        &&& idx.outer < self.vecs@.len()
        &&& prefix_len(self.blocks(), idx.outer as int) + idx.inner == pos
        &&& if for_insert {
            idx.inner <= self.blocks()[idx.outer as int].len()
        } else {
            idx.inner < self.blocks()[idx.outer as int].len()
        }
    }

    /// Create a new, empty store with the default block sizes.
    pub fn new() -> (r: SplitVec)
        ensures
            r.wf(),
            r@ == Seq::<u8>::empty(),
            r.blocks() == Seq::<Seq<u8>>::empty(),
            r.min_size() == MIN_BLOCK_SIZE,
            r.max_size() == MAX_BLOCK_SIZE,
    {
        let r = SplitVec {
            vecs: Vec::new(),
            length: 0,
            min_block: MIN_BLOCK_SIZE,
            max_block: MAX_BLOCK_SIZE,
        };
        proof {
            assert(r.blocks() =~= Seq::<Seq<u8>>::empty());
        }
        r
    }

    /// Create an empty store with the given block sizes.
    pub fn with_block_sizes(min_block: usize, max_block: usize) -> (r: SplitVec)
        requires
            0 < min_block < max_block,
        ensures
            r.wf(),
            r@ == Seq::<u8>::empty(),
            r.blocks() == Seq::<Seq<u8>>::empty(),
            r.min_size() == min_block,
            r.max_size() == max_block,
    {
        let r = SplitVec { vecs: Vec::new(), length: 0, min_block, max_block };
        proof {
            assert(r.blocks() =~= Seq::<Seq<u8>>::empty());
        }
        r
    }

    /// Create a store that holds `values` as its single block.
    pub fn from_vec(values: Vec<u8>) -> (r: SplitVec)
        ensures
            r.wf(),
            r@ == values@,
            r.blocks() == seq![values@],
            r.min_size() == MIN_BLOCK_SIZE,
            r.max_size() == MAX_BLOCK_SIZE,
    {
        let len = values.len();
        let ghost content = values@;
        let mut vecs: Vec<Vec<u8>> = Vec::new();
        vecs.push(values);
        let r = SplitVec { vecs, length: len, min_block: MIN_BLOCK_SIZE, max_block: MAX_BLOCK_SIZE };
        proof {
            assert(r.blocks() =~= seq![content]);
            seq![content].lemma_flatten_one_element();
        }
        r
    }

    /// Create a store whose blocks are the given vectors, in order.
    pub fn from_vecs(vecs: Vec<Vec<u8>>) -> (r: SplitVec)
        requires
            blocks_of(vecs@).flatten().len() <= usize::MAX,
        ensures
            r.wf(),
            r.blocks() == blocks_of(vecs@),
            r@ == blocks_of(vecs@).flatten(),
            r.min_size() == MIN_BLOCK_SIZE,
            r.max_size() == MAX_BLOCK_SIZE,
    {
        let mut sv = SplitVec { vecs, length: 0, min_block: MIN_BLOCK_SIZE, max_block: MAX_BLOCK_SIZE };
        sv.calc_len();
        sv
    }

    /// Create a store that holds a copy of `values` as its single block.
    pub fn from_slice(values: &[u8]) -> (r: SplitVec)
        ensures
            r.wf(),
            r@ == values@,
            r.min_size() == MIN_BLOCK_SIZE,
            r.max_size() == MAX_BLOCK_SIZE,
    {
        let mut v: Vec<u8> = Vec::new();
        push_all(&mut v, values);
        SplitVec::from_vec(v)
    }

    /// The number of bytes held.
    pub fn len(&self) -> (r: usize)
        requires
            self.wf(),
        ensures
            r == self@.len(),
    {
        self.length
    }

    /// Recompute the cached length from the blocks.
    fn calc_len(&mut self)
        requires
            old(self).blocks().flatten().len() <= usize::MAX,
            0 < old(self).min_block < old(self).max_block,
        ensures
            final(self).wf(),
            final(self).vecs == old(self).vecs,
            final(self).min_block == old(self).min_block,
            final(self).max_block == old(self).max_block,
    {
        let mut total: usize = 0;
        let mut i: usize = 0;
        proof {
            assert(self.blocks().take(0) =~= Seq::<Seq<u8>>::empty());
        }
        while i < self.vecs.len()
            invariant
                i <= self.vecs@.len(),
                total == prefix_len(self.blocks(), i as int),
                self.blocks().flatten().len() <= usize::MAX,
                0 < self.min_block < self.max_block,
            decreases self.vecs@.len() - i,
        {
            proof {
                lemma_prefix_step(self.blocks(), i as int);
                lemma_prefix_mono(self.blocks(), i as int + 1, self.vecs@.len() as int);
                lemma_prefix_total(self.blocks());
            }
            total = total + self.vecs[i].len();
            i = i + 1;
        }
        proof {
            lemma_prefix_total(self.blocks());
        }
        self.length = total;
    }

    /// Convert a position of the content into a block and an offset in it. A position
    /// equal to a block's length names the end of that block only `for_insert`; `None`
    /// when the walk runs out of blocks.
    fn pos_to_index(&self, pos: usize, for_insert: bool) -> (r: Option<Index>)
        requires
            self.wf(),
        ensures
            r.is_some() <==> (pos < self@.len() || (for_insert && pos == self@.len())),
            r.is_some() ==> (self.index_ok(r.unwrap(), pos as int, for_insert) || (for_insert
                && self.vecs@.len() == 0 && r.unwrap().outer == 0 && r.unwrap().inner == 0)),
    {
        let mut cur: usize = pos;
        let mut i: usize = 0;
        proof {
            assert(self.blocks().take(0) =~= Seq::<Seq<u8>>::empty());
        }
        while i < self.vecs.len()
            invariant
                self.wf(),
                i <= self.vecs@.len(),
                prefix_len(self.blocks(), i as int) + cur == pos,
                for_insert && i > 0 ==> cur > 0,
            decreases self.vecs@.len() - i,
        {
            let l = self.vecs[i].len();
            proof {
                lemma_prefix_step(self.blocks(), i as int);
                lemma_prefix_mono(self.blocks(), i as int + 1, self.vecs@.len() as int);
                lemma_prefix_total(self.blocks());
            }
            if cur < l || (for_insert && cur == l) {
                return Some(Index { outer: i, inner: cur });
            }
            cur = cur - l;
            i = i + 1;
        }
        proof {
            lemma_prefix_total(self.blocks());
        }
        if for_insert && cur == 0 {
            proof {
                assert(self.blocks().len() == 0);
            }
            return Some(Index { outer: 0, inner: 0 });
        }
        None
    }

    /// The byte at `offset`.
    pub fn get(&self, offset: usize) -> (r: Result<u8, StoreError>)
        requires
            self.wf(),
        ensures
            offset < self@.len() ==> r == Ok::<u8, StoreError>(self@[offset as int]),
            offset >= self@.len() ==> r == Err::<u8, StoreError>(StoreError::OutOfRange),
    {
        match self.pos_to_index(offset, false) {
            Some(idx) => {
                proof {
                    lemma_flatten_index(self.blocks(), idx.outer as int, idx.inner as int);
                }
                Ok(self.vecs[idx.outer][idx.inner])
            },
            None => Err(StoreError::OutOfRange),
        }
    }

    /// Replace the byte at `offset` with `value`.
    pub fn set(&mut self, offset: usize, value: u8) -> (r: Result<(), StoreError>)
        requires
            old(self).wf(),
        ensures
            final(self).wf(),
            final(self).min_size() == old(self).min_size(),
            final(self).max_size() == old(self).max_size(),
            offset < old(self)@.len() ==> r == Ok::<(), StoreError>(()) && final(self)@ == old(
                self,
            )@.update(offset as int, value),
            offset >= old(self)@.len() ==> r == Err::<(), StoreError>(StoreError::OutOfRange)
                && final(self)@ == old(self)@,
            forall|k: int|
                0 <= k < old(self).blocks().len() ==> (#[trigger] final(self).blocks()[k]).len()
                    == old(self).blocks()[k].len(),
            final(self).blocks().len() == old(self).blocks().len(),
    {
        match self.pos_to_index(offset, false) {
            Some(idx) => {
                let ghost b = self.blocks();
                let i = idx.outer;
                let j = idx.inner;
                let mut blk: Vec<u8> = Vec::new();
                std::mem::swap(&mut blk, &mut self.vecs[i]);
                blk.set(j, value);
                std::mem::swap(&mut blk, &mut self.vecs[i]);
                proof {
                    let nb = self.blocks();
                    assert(nb =~= b.update(i as int, b[i as int].update(j as int, value)));
                    lemma_split_at(b, i as int);
                    lemma_split_at(nb, i as int);
                    assert(nb.take(i as int) =~= b.take(i as int));
                    assert(nb.skip(i as int + 1) =~= b.skip(i as int + 1));
                    assert(self@ =~= old(self)@.update(offset as int, value));
                }
                Ok(())
            },
            None => Err(StoreError::OutOfRange),
        }
    }
}


/// Replacing block `i` by its first `k` bytes followed by the rest as a block of its own
/// keeps the content.
proof fn lemma_split_block(b: Seq<Seq<u8>>, i: int, k: int)
    requires
        0 <= i < b.len(),
        0 <= k <= b[i].len(),
    ensures
        b.update(i, b[i].take(k)).insert(i + 1, b[i].skip(k)).flatten() == b.flatten(),
{
    let nb = b.update(i, b[i].take(k)).insert(i + 1, b[i].skip(k));
    lemma_split_at(b, i);
    lemma_split_at(nb, i);
    assert(nb.take(i) =~= b.take(i));
    assert(nb.skip(i + 1) =~= seq![b[i].skip(k)] + b.skip(i + 1));
    lemma_flatten_cons(b[i].skip(k), b.skip(i + 1));
    assert(b[i] =~= b[i].take(k) + b[i].skip(k));
    assert(nb.flatten() =~= b.flatten());
}

/// Removing an empty block keeps the content.
proof fn lemma_remove_empty(b: Seq<Seq<u8>>, i: int)
    requires
        0 <= i < b.len(),
        b[i].len() == 0,
    ensures
        b.remove(i).flatten() == b.flatten(),
{
    lemma_split_at(b, i);
    let nb = b.remove(i);
    assert(nb =~= b.take(i) + b.skip(i + 1));
    lemma_flatten_concat(b.take(i), b.skip(i + 1));
    assert(b.flatten() =~= nb.flatten());
}

/// Replacing block `i` by `x` replaces it in the content too.
proof fn lemma_replace_block(b: Seq<Seq<u8>>, i: int, x: Seq<u8>)
    requires
        0 <= i < b.len(),
    ensures
        b.update(i, x).flatten() == b.take(i).flatten() + x + b.skip(i + 1).flatten(),
        b.flatten() == b.take(i).flatten() + b[i] + b.skip(i + 1).flatten(),
        prefix_len(b.update(i, x), i) == prefix_len(b, i),
{
    let nb = b.update(i, x);
    lemma_split_at(b, i);
    lemma_split_at(nb, i);
    assert(nb.take(i) =~= b.take(i));
    assert(nb.skip(i + 1) =~= b.skip(i + 1));
}

impl SplitVec {
    /// Cut block `i` in two at offset `k`: the bytes from `k` on become the next block.
    fn split_block(&mut self, i: usize, k: usize)
        requires
            old(self).wf(),
            i < old(self).blocks().len(),
            k <= old(self).blocks()[i as int].len(),
        ensures
            final(self).wf(),
            final(self)@ == old(self)@,
            final(self).min_block == old(self).min_block,
            final(self).max_block == old(self).max_block,
            final(self).blocks() == old(self).blocks().update(
                i as int,
                old(self).blocks()[i as int].take(k as int),
            ).insert(i as int + 1, old(self).blocks()[i as int].skip(k as int)),
    {
        let ghost b = self.blocks();
        let n = self.vecs.len();
        assert(i < n);
        let mut blk: Vec<u8> = Vec::new();
        std::mem::swap(&mut blk, &mut self.vecs[i]);
        let tail = blk.split_off(k);
        std::mem::swap(&mut blk, &mut self.vecs[i]);
        self.vecs.insert(i + 1, tail);
        proof {
            assert(self.blocks() =~= b.update(i as int, b[i as int].take(k as int)).insert(
                i as int + 1,
                b[i as int].skip(k as int),
            ));
            lemma_split_block(b, i as int, k as int);
        }
    }

    /// Make room for an insertion at `index`: a block that has reached the maximum size
    /// is split at the boundary, aligned to the minimum size, at or before the target
    /// offset, and the search goes on in the new block; when that boundary is zero the
    /// block is cut down to the minimum size. Returns where the bytes go now.
    fn prepare_insert(&mut self, index: Index) -> (r: Index)
        requires
            old(self).wf(),
            old(self).index_ok(
                index,
                prefix_len(old(self).blocks(), index.outer as int) + index.inner,
                true,
            ) || (old(self).vecs@.len() == 0 && index.outer == 0 && index.inner == 0),
        ensures
            final(self).wf(),
            final(self)@ == old(self)@,
            final(self).min_block == old(self).min_block,
            final(self).max_block == old(self).max_block,
            final(self).index_ok(
                r,
                if old(self).vecs@.len() == 0 { 0 } else { prefix_len(old(self).blocks(), index.outer as int) + index.inner },
                true,
            ),
            final(self).blocks()[r.outer as int].len() < final(self).max_block,
            blocks_bounded(old(self).blocks(), old(self).max_block as int) ==> blocks_bounded(
                final(self).blocks(),
                old(self).max_block as int,
            ),
            blocks_nonempty(old(self).blocks()) ==> forall|k: int|
                0 <= k < final(self).blocks().len() && k != r.outer ==> (#[trigger] final(self).blocks()[k]).len() > 0,
            old(self).blocks().len() == 1 && old(self).blocks()[0].len() == old(self).max_block
                && index.outer == 0 && old(self).min_block <= index.inner ==> ({
                let b = old(self).blocks()[0];
                let bd = (index.inner / old(self).min_block) * old(self).min_block;
                &&& final(self).blocks() == seq![b.take(bd as int), b.skip(bd as int)]
                &&& r.outer == 1
                &&& r.inner == index.inner - bd
            }),
    {
        let ghost orig = index;
        let ghost nonempty0 = blocks_nonempty(old(self).blocks());
        let ghost special = old(self).blocks().len() == 1 && old(self).blocks()[0].len()
            == old(self).max_block && index.outer == 0 && old(self).min_block <= index.inner;
        let ghost b0 = if old(self).blocks().len() > 0 {
            old(self).blocks()[0]
        } else {
            Seq::<u8>::empty()
        };
        let ghost bd0 = (index.inner / old(self).min_block) * old(self).min_block;
        proof {
            let m = old(self).min_block as int;
            let q = index.inner / old(self).min_block;
            if special {
                assert(q >= 1 && q * m >= m) by (nonlinear_arith)
                    requires
                        m > 0,
                        m <= index.inner,
                        q == index.inner as int / m,
                ;
                assert(q * m <= index.inner) by (nonlinear_arith)
                    requires
                        m > 0,
                        q == index.inner as int / m,
                ;
                assert(old(self).blocks() =~= seq![b0]);
            }
        }
        let mut index = index;
        if index.outer >= self.vecs.len() {
            self.vecs.push(Vec::new());
            proof {
                assert(self.blocks() =~= seq![Seq::<u8>::empty()]);
                seq![Seq::<u8>::empty()].lemma_flatten_one_element();
                assert(self.blocks().take(0) =~= Seq::<Seq<u8>>::empty());
            }
        }
        let ghost pos = prefix_len(self.blocks(), index.outer as int) + index.inner;
        let ghost bounded = blocks_bounded(old(self).blocks(), old(self).max_block as int);
        loop
            invariant
                self.wf(),
                self@ == old(self)@,
                self.min_block == old(self).min_block,
                self.max_block == old(self).max_block,
                self.index_ok(index, pos, true),
                bounded ==> blocks_bounded(self.blocks(), self.max_block as int),
                nonempty0 ==> forall|k: int|
                    0 <= k < self.blocks().len() && k != index.outer ==> (#[trigger] self.blocks()[k]).len()
                        > 0,
                special ==> bd0 >= self.min_block && bd0 <= orig.inner,
                special ==> old(self).blocks() == seq![b0] && b0.len() == self.max_block
                    && orig.inner <= b0.len(),
                special ==> bd0 == (orig.inner / self.min_block) * self.min_block,
                special ==> (self.blocks() == old(self).blocks() && index == orig) || (
                self.blocks() == seq![b0.take(bd0 as int), b0.skip(bd0 as int)] && index.outer == 1
                    && index.inner == orig.inner - bd0),
            ensures
                self.wf(),
                self@ == old(self)@,
                self.min_block == old(self).min_block,
                self.max_block == old(self).max_block,
                self.index_ok(index, pos, true),
                bounded ==> blocks_bounded(self.blocks(), self.max_block as int),
                self.blocks()[index.outer as int].len() < self.max_block,
                nonempty0 ==> forall|k: int|
                    0 <= k < self.blocks().len() && k != index.outer ==> (#[trigger] self.blocks()[k]).len()
                        > 0,
                special ==> self.blocks() == seq![b0.take(bd0 as int), b0.skip(bd0 as int)]
                    && index.outer == 1 && index.inner == orig.inner - bd0,
            decreases index.inner,
        {
            let len = self.vecs[index.outer].len();
            let n = self.vecs.len();
            assert(self.blocks()[index.outer as int].len() == len);
            proof {
                if special {
                    if index.outer == 0 {
                        assert(self.blocks()[0] == b0);
                        assert(len == self.max_block);
                    } else {
                        assert(self.blocks()[1] == b0.skip(bd0 as int));
                        assert(len < self.max_block);
                    }
                }
            }
            if len < self.max_block {
                break ;
            }
            let ghost b = self.blocks();
            let min = self.min_block;
            let q = index.inner / min;
            proof {
                assert(q * min <= index.inner) by (nonlinear_arith)
                    requires
                        min > 0,
                        q == index.inner / min,
                ;
                assert(q * min == 0 ==> index.inner < min) by (nonlinear_arith)
                    requires
                        min > 0,
                        q == index.inner / min,
                ;
            }
            let boundary = q * min;
            if boundary == 0 {
                self.split_block(index.outer, min);
                proof {
                    let nb = self.blocks();
                    let o = index.outer as int;
                    assert(nb[o] == b[o].take(min as int));
                    assert(nb.take(o) =~= b.take(o));
                    if nonempty0 {
                        assert forall|k: int| 0 <= k < nb.len() && k != o implies (
                        #[trigger] nb[k]).len() > 0 by {
                            if k > o + 1 {
                                assert(nb[k] == b[k - 1]);
                            } else if k < o {
                                assert(nb[k] == b[k]);
                            }
                        }
                    }
                    if bounded {
                        assert forall|k: int| 0 <= k < nb.len() implies (#[trigger] nb[k]).len()
                            <= self.max_block by {
                            if k > o + 1 {
                                assert(nb[k] == b[k - 1]);
                            }
                        }
                    }
                }
                break ;
            } else {
                self.split_block(index.outer, boundary);
                proof {
                    let nb = self.blocks();
                    let o = index.outer as int;
                    lemma_prefix_step(nb, o);
                    assert(nb.take(o) =~= b.take(o));
                    if nonempty0 {
                        assert forall|k: int| 0 <= k < nb.len() && k != o + 1 implies (
                        #[trigger] nb[k]).len() > 0 by {
                            if k > o + 1 {
                                assert(nb[k] == b[k - 1]);
                            } else if k < o {
                                assert(nb[k] == b[k]);
                            }
                        }
                    }
                    if special {
                        assert(b.len() == 1 && b[0] == b0);
                        assert(boundary == bd0);
                        assert(nb =~= seq![b0.take(bd0 as int), b0.skip(bd0 as int)]);
                    }
                    if bounded {
                        assert forall|k: int| 0 <= k < nb.len() implies (#[trigger] nb[k]).len()
                            <= self.max_block by {
                            if k > o + 1 {
                                assert(nb[k] == b[k - 1]);
                            }
                        }
                    }
                }
                index = Index { outer: index.outer + 1, inner: index.inner - boundary };
            }
        }
        index
    }
}


impl SplitVec {
    /// Put `values[start..start + count]` into block `i` at offset `j`.
    fn insert_in_block(&mut self, i: usize, j: usize, values: &[u8], start: usize, count: usize)
        requires
            old(self).wf(),
            i < old(self).blocks().len(),
            j <= old(self).blocks()[i as int].len(),
            start + count <= values@.len(),
            old(self)@.len() + count <= usize::MAX,
        ensures
            final(self).wf(),
            final(self).min_block == old(self).min_block,
            final(self).max_block == old(self).max_block,
            final(self).blocks() == old(self).blocks().update(
                i as int,
                old(self).blocks()[i as int].take(j as int) + values@.subrange(
                    start as int,
                    start + count,
                ) + old(self).blocks()[i as int].skip(j as int),
            ),
            ({
                let p = prefix_len(old(self).blocks(), i as int) + j;
                final(self)@ == old(self)@.take(p) + values@.subrange(start as int, start + count)
                    + old(self)@.skip(p)
            }),
    {
        let ghost b = self.blocks();
        let ghost mid = self@;
        let mut blk: Vec<u8> = Vec::new();
        std::mem::swap(&mut blk, &mut self.vecs[i]);
        let mut tail = blk.split_off(j);
        push_range(&mut blk, values, start, count);
        blk.append(&mut tail);
        std::mem::swap(&mut blk, &mut self.vecs[i]);
        self.length = self.length + count;
        proof {
            let piece = values@.subrange(start as int, start + count);
            let x = b[i as int].take(j as int) + piece + b[i as int].skip(j as int);
            let nb = self.blocks();
            assert(nb =~= b.update(i as int, x));
            lemma_replace_block(b, i as int, x);
            let before = b.take(i as int).flatten();
            let after = b.skip(i as int + 1).flatten();
            let p = prefix_len(b, i as int) + j;
            assert(mid.take(p) =~= before + b[i as int].take(j as int));
            assert(mid.skip(p) =~= b[i as int].skip(j as int) + after);
            assert(self@ =~= mid.take(p) + piece + mid.skip(p));
        }
    }

    /// Insert the bytes of `values` at `offset`, shifting what follows to the right.
    /// `offset` may equal the length (an append). The bytes go in as pieces that each
    /// fit in a block below the maximum size, so no block grows past it; an insertion
    /// of no bytes leaves the blocks as they are.
    pub fn insert(&mut self, offset: usize, values: &[u8]) -> (r: Result<(), StoreError>)
        requires
            old(self).wf(),
            old(self)@.len() + values@.len() <= usize::MAX,
        ensures
            final(self).wf(),
            final(self).min_size() == old(self).min_size(),
            final(self).max_size() == old(self).max_size(),
            offset <= old(self)@.len() ==> r == Ok::<(), StoreError>(()) && final(self)@ == old(
                self,
            )@.take(offset as int) + values@ + old(self)@.skip(offset as int),
            offset > old(self)@.len() ==> r == Err::<(), StoreError>(StoreError::OutOfRange)
                && final(self)@ == old(self)@ && final(self).blocks() == old(self).blocks(),
            values@.len() == 0 ==> final(self).blocks() == old(self).blocks(),
            blocks_bounded(old(self).blocks(), old(self).max_size() as int) ==> blocks_bounded(
                final(self).blocks(),
                old(self).max_size() as int,
            ),
            blocks_nonempty(old(self).blocks()) ==> blocks_nonempty(final(self).blocks()),
            old(self).blocks().len() == 1 && old(self).blocks()[0].len() == old(self).max_size()
                && 0 < values@.len() && old(self).min_size() <= offset <= old(self)@.len() && values@.len() <= (offset as nat
                / old(self).min_size()) * old(self).min_size() ==> ({
                let s = old(self)@;
                let bd = (offset as nat / old(self).min_size()) * old(self).min_size();
                final(self).blocks() == seq![
                    s.take(bd as int),
                    s.subrange(bd as int, offset as int) + values@ + s.skip(offset as int),
                ]
            }),
    {
        if offset > self.length {
            return Err(StoreError::OutOfRange);
        }
        let n = values.len();
        if n == 0 {
            proof {
                assert(self@ =~= self@.take(offset as int) + values@ + self@.skip(offset as int));
            }
            return Ok(());
        }
        let ghost old_v = self@;
        let ghost old_b = self.blocks();
        let ghost bounded = blocks_bounded(old_b, self.max_block as int);
        let ghost nonempty0 = blocks_nonempty(old_b);
        let ghost special = old_b.len() == 1 && old_b[0].len() == self.max_block && self.min_block
            <= offset && n <= (offset / self.min_block) * self.min_block;
        let ghost bd = (offset / self.min_block) * self.min_block;
        proof {
            if special {
                seq![old_b[0]].lemma_flatten_one_element();
                assert(old_b =~= seq![old_b[0]]);
            }
        }
        let mut done: usize = 0;
        proof {
            assert(old_v =~= old_v.take(offset as int) + values@.take(0) + old_v.skip(
                offset as int,
            ));
        }
        while done < n
            invariant
                self.wf(),
                self.min_block == old(self).min_block,
                self.max_block == old(self).max_block,
                done <= n,
                n == values@.len(),
                offset <= old_v.len(),
                old_v == old(self)@,
                old_b == old(self).blocks(),
                old_v.len() + n <= usize::MAX,
                self@ == old_v.take(offset as int) + values@.take(done as int) + old_v.skip(
                    offset as int,
                ),
                bounded == blocks_bounded(old_b, self.max_block as int),
                bounded ==> blocks_bounded(self.blocks(), self.max_block as int),
                nonempty0 == blocks_nonempty(old_b),
                nonempty0 ==> blocks_nonempty(self.blocks()),
                done == 0 ==> self.blocks() == old_b,
                special == (old_b.len() == 1 && old_b[0].len() == self.max_block && self.min_block
                    <= offset && n <= (offset / self.min_block) * self.min_block),
                bd == (offset / self.min_block) * self.min_block,
                special ==> old_b == seq![old_v],
                special && done > 0 ==> done == n && self.blocks() == seq![
                    old_v.take(bd as int),
                    old_v.subrange(bd as int, offset as int) + values@ + old_v.skip(offset as int),
                ],
            decreases n - done,
        {
            let pos = offset + done;
            let idx = self.pos_to_index(pos, true).unwrap();
            let ghost before = self.blocks();
            let idx = self.prepare_insert(idx);
            let blen = self.vecs[idx.outer].len();
            let room = self.max_block - blen;
            let count = if room < n - done {
                room
            } else {
                n - done
            };
            let ghost mid = self.blocks();
            let ghost v = self@;
            self.insert_in_block(idx.outer, idx.inner, values, done, count);
            proof {
                let nb = self.blocks();
                let o = idx.outer as int;
                assert(v == old_v.take(offset as int) + values@.take(done as int) + old_v.skip(
                    offset as int,
                ));
                assert(self@ =~= old_v.take(offset as int) + values@.take(done + count) + old_v.skip(
                    offset as int,
                ));
                if bounded {
                    assert forall|k: int| 0 <= k < nb.len() implies (#[trigger] nb[k]).len()
                        <= self.max_block by {
                        if k != o {
                            assert(nb[k] == mid[k]);
                        }
                    }
                }
                if nonempty0 {
                    assert forall|k: int| 0 <= k < nb.len() implies (#[trigger] nb[k]).len() > 0 by {
                        if k != o {
                            assert(nb[k] == mid[k]);
                        }
                    }
                }
                if special && done == 0 {
                    assert(before == seq![old_v]);
                    assert(before.take(0) =~= Seq::<Seq<u8>>::empty());
                    assert(prefix_len(before, 0) == 0);
                    assert(idx.outer == 1);
                    assert(idx.inner == offset - bd);
                    let j = idx.inner as int;
                    assert(old_v.skip(bd as int).take(j) =~= old_v.subrange(bd as int, offset as int));
                    assert(old_v.skip(bd as int).skip(j) =~= old_v.skip(offset as int));
                    assert(values@.subrange(0, n as int) =~= values@);
                    assert(mid == seq![old_v.take(bd as int), old_v.skip(bd as int)]);
                    assert(count == n);
                    assert(nb =~= seq![
                        old_v.take(bd as int),
                        old_v.subrange(bd as int, offset as int) + values@ + old_v.skip(offset as int),
                    ]);
                }
            }
            done = done + count;
        }
        proof {
            assert(values@.take(n as int) =~= values@);
        }
        Ok(())
    }
}

/// A range of positions in a store, resolved against the store's length.
pub trait FromRange {
    /// The start and the end that the range names in a content of `len` bytes.
    spec fn spec_bounds(&self, len: nat) -> (int, int);

    /// The start and the end of the range in `seg`.
    fn from_range(&self, seg: &SplitVec) -> (r: (usize, usize))
        requires
            seg.wf(),
        ensures
            r.0 == self.spec_bounds(seg@.len()).0,
            r.1 == self.spec_bounds(seg@.len()).1,
    ;
}

impl FromRange for std::ops::Range<usize> {
    open spec fn spec_bounds(&self, len: nat) -> (int, int) {
        (self.start as int, self.end as int)
    }

    fn from_range(&self, seg: &SplitVec) -> (r: (usize, usize)) {
        (self.start, self.end)
    }
}

/// A read-only walk over a range of a store, one byte at a time.
pub struct Items<'a> {
    seg: &'a SplitVec,
    index: Index,
    num_elem: usize,
}

impl<'a> Items<'a> {
    spec fn pos(&self) -> int {
        prefix_len(self.seg.blocks(), self.index.outer as int) + self.index.inner
    }

    /// The walk is positioned inside its store.
    pub closed spec fn wf(&self) -> bool {
        &&& self.seg.wf()
        &&& self.index.outer <= self.seg.blocks().len()
        &&& self.index.outer < self.seg.blocks().len() ==> self.index.inner
            <= self.seg.blocks()[self.index.outer as int].len()
        &&& self.index.outer == self.seg.blocks().len() ==> self.index.inner == 0
        &&& self.pos() + self.num_elem <= self.seg@.len()
    }

    /// The bytes that the walk has yet to yield, in order.
    pub closed spec fn rest(&self) -> Seq<u8> {
        self.seg@.subrange(self.pos(), self.pos() + self.num_elem)
    }

    /// The next byte, or `None` when the range is exhausted.
    pub fn next(&mut self) -> (r: Option<u8>)
        requires
            old(self).wf(),
        ensures
            final(self).wf(),
            old(self).rest().len() == 0 ==> r == None::<u8> && final(self).rest() == old(
                self,
            ).rest(),
            old(self).rest().len() > 0 ==> r == Some(old(self).rest()[0]) && final(self).rest()
                == old(self).rest().drop_first(),
    {
        if self.num_elem == 0 {
            return None;
        }
        let ghost p = self.pos();
        let ghost b = self.seg.blocks();
        let n = self.seg.vecs.len();
        proof {
            lemma_prefix_total(b);
        }
        while self.index.inner >= self.seg.vecs[self.index.outer].len()
            invariant
                n == b.len(),
                self.seg.wf(),
                self.seg.blocks() == b,
                self.pos() == p,
                p < self.seg@.len(),
                self.index.outer < b.len(),
                self.index.inner <= b[self.index.outer as int].len(),
                self.num_elem == old(self).num_elem,
                self.seg == old(self).seg,
            decreases b.len() - self.index.outer,
        {
            proof {
                lemma_prefix_step(b, self.index.outer as int);
                if self.index.outer + 1 == b.len() {
                    lemma_prefix_total(b);
                }
            }
            self.index = Index { outer: self.index.outer + 1, inner: 0 };
        }
        let v = self.seg.vecs[self.index.outer][self.index.inner];
        proof {
            lemma_flatten_index(b, self.index.outer as int, self.index.inner as int);
        }
        self.index = Index { outer: self.index.outer, inner: self.index.inner + 1 };
        self.num_elem = self.num_elem - 1;
        proof {
            assert(self.rest() =~= old(self).rest().drop_first());
        }
        Some(v)
    }
}

/// A walk over the blocks of a store, in order.
pub struct Slices<'a> {
    seg: &'a SplitVec,
    outer: usize,
}

impl<'a> Slices<'a> {
    /// The walk is positioned inside its store.
    pub closed spec fn wf(&self) -> bool {
        self.seg.wf() && self.outer <= self.seg.blocks().len()
    }

    /// The blocks that the walk has yet to yield, in order.
    pub closed spec fn rest(&self) -> Seq<Seq<u8>> {
        self.seg.blocks().skip(self.outer as int)
    }

    /// The next block, or `None` when every block has been yielded.
    pub fn next(&mut self) -> (r: Option<&'a [u8]>)
        requires
            old(self).wf(),
        ensures
            final(self).wf(),
            old(self).rest().len() == 0 ==> r.is_none() && final(self).rest() == old(self).rest(),
            old(self).rest().len() > 0 ==> r.is_some() && r.unwrap()@ == old(self).rest()[0]
                && final(self).rest() == old(self).rest().drop_first(),
    {
        if self.outer >= self.seg.vecs.len() {
            return None;
        }
        let i = self.outer;
        let seg: &'a SplitVec = self.seg;
        let blk: &'a [u8] = seg.vecs[i].as_slice();
        self.outer = i + 1;
        proof {
            assert(self.rest() =~= old(self).rest().drop_first());
        }
        Some(blk)
    }
}

impl SplitVec {
    /// A walk over the bytes of `range`; a range that runs past the end stops at the end.
    pub fn iter_range<'a, R: FromRange>(&'a self, range: R) -> (r: Result<Items<'a>, StoreError>)
        requires
            self.wf(),
        ensures
            ({
                let (from, to) = range.spec_bounds(self@.len());
                &&& to < from ==> r == Err::<Items<'a>, StoreError>(StoreError::InvertedRange)
                &&& from <= to && from > self@.len() ==> r == Err::<Items<'a>, StoreError>(
                    StoreError::OutOfRange,
                )
                &&& from <= to && from <= self@.len() ==> r.is_ok() && r.unwrap().wf()
                    && r.unwrap().rest() == splice_removed(self@, from, to)
            }),
    {
        let (from, to) = range.from_range(self);
        if to < from {
            return Err(StoreError::InvertedRange);
        }
        if from > self.length {
            return Err(StoreError::OutOfRange);
        }
        let end = if to < self.length {
            to
        } else {
            self.length
        };
        let idx = self.pos_to_index(from, true).unwrap();
        proof {
            lemma_prefix_total(self.blocks());
        }
        Ok(Items { seg: self, index: idx, num_elem: end - from })
    }

    /// A walk over the blocks, in order: the whole content without a copy.
    pub fn iter_slices<'a>(&'a self) -> (r: Slices<'a>)
        requires
            self.wf(),
        ensures
            r.wf(),
            r.rest() == self.blocks(),
            r.rest().flatten() == self@,
    {
        let r = Slices { seg: self, outer: 0 };
        proof {
            assert(r.rest() =~= self.blocks());
        }
        r
    }

    /// A copy of the bytes of `range`; a range that runs past the end stops at the end.
    pub fn copy_out<R: FromRange>(&self, range: R) -> (r: Result<Vec<u8>, StoreError>)
        requires
            self.wf(),
        ensures
            ({
                let (from, to) = range.spec_bounds(self@.len());
                &&& to < from ==> r == Err::<Vec<u8>, StoreError>(StoreError::InvertedRange)
                &&& from <= to && from > self@.len() ==> r == Err::<Vec<u8>, StoreError>(
                    StoreError::OutOfRange,
                )
                &&& from <= to && from <= self@.len() ==> r.is_ok() && r.unwrap()@
                    == splice_removed(self@, from, to)
            }),
    {
        let mut items = match self.iter_range(range) {
            Ok(items) => items,
            Err(e) => {
                return Err(e);
            },
        };
        let ghost all = items.rest();
        let mut res: Vec<u8> = Vec::new();
        loop
            invariant
                items.wf(),
                all == res@ + items.rest(),
            ensures
                all == res@,
            decreases items.rest().len(),
        {
            let ghost before = items.rest();
            match items.next() {
                Some(v) => {
                    res.push(v);
                    proof {
                        assert(before =~= seq![v] + items.rest());
                        assert(all =~= res@ + items.rest());
                    }
                },
                None => {
                    proof {
                        assert(res@ + before =~= res@);
                    }
                    break ;
                },
            }
        }
        Ok(res)
    }

    /// Whether `needle` occurs at position `i`.
    fn matches_at(&self, i: usize, needle: &[u8]) -> (r: bool)
        requires
            self.wf(),
            i < self@.len(),
        ensures
            r == occurs_at(self@, needle@, i as int),
    {
        let n = needle.len();
        if n > self.length - i {
            return false;
        }
        let mut items = match self.iter_range(i..i + n) {
            Ok(items) => items,
            Err(_) => {
                return false;
            },
        };
        let mut k: usize = 0;
        while k < n
            invariant
                items.wf(),
                k <= n,
                n == needle@.len(),
                i + n <= self@.len(),
                items.rest() == self@.subrange(i + k, i + n as int),
                self@.subrange(i as int, i + k) == needle@.take(k as int),
            decreases n - k,
        {
            let v = items.next();
            match v {
                Some(x) => {
                    if x != needle[k] {
                        proof {
                            assert(self@.subrange(i as int, i + n as int)[k as int] == x);
                        }
                        return false;
                    }
                },
                None => {
                    return false;
                },
            }
            proof {
                assert(self@.subrange(i as int, i + k + 1) =~= needle@.take(k as int + 1));
            }
            k = k + 1;
            proof {
                assert(items.rest() =~= self@.subrange(i + k, i + n as int));
            }
        }
        proof {
            assert(needle@.take(n as int) =~= needle@);
        }
        true
    }

    /// The first position at or after `from` where `needle` occurs.
    pub fn find_slice_from(&self, from: usize, needle: &[u8]) -> (r: Option<usize>)
        requires
            self.wf(),
        ensures
            match r {
                Some(p) => first_occurrence(self@, needle@, from as int) == Some(p as int),
                None => first_occurrence(self@, needle@, from as int) == None::<int>,
            },
    {
        let len = self.len();
        let mut i = from;
        while i < len
            invariant
                len == self@.len(),
                self.wf(),
                from <= i,
                forall|j: int| from <= j < i ==> !occurs_at(self@, needle@, j),
            decreases len - i,
        {
            if self.matches_at(i, needle) {
                proof {
                    let hay = self@;
                    let w = choose|w: int|
                        from <= w < hay.len() && occurs_at(hay, needle@, w) && forall|j: int|
                            from <= j < w ==> !occurs_at(hay, needle@, j);
                    assert(from <= i < hay.len() && occurs_at(hay, needle@, i as int) && forall|
                        j: int,
                    | from <= j < i ==> !occurs_at(hay, needle@, j));
                    assert(w == i);
                }
                return Some(i);
            }
            i = i + 1;
        }
        None
    }

    /// The first position where `needle` occurs.
    pub fn find_slice(&self, needle: &[u8]) -> (r: Option<usize>)
        requires
            self.wf(),
        ensures
            match r {
                Some(p) => first_occurrence(self@, needle@, 0) == Some(p as int),
                None => first_occurrence(self@, needle@, 0) == None::<int>,
            },
    {
        self.find_slice_from(0, needle)
    }
}


impl SplitVec {
    /// Take the bytes `[start, end)` out of block `i`; a block left empty is removed.
    fn remove_in_block(&mut self, i: usize, start: usize, end: usize) -> (r: Vec<u8>)
        requires
            old(self).wf(),
            i < old(self).blocks().len(),
            start <= end <= old(self).blocks()[i as int].len(),
        ensures
            final(self).wf(),
            final(self).min_block == old(self).min_block,
            final(self).max_block == old(self).max_block,
            ({
                let p = prefix_len(old(self).blocks(), i as int);
                &&& r@ == old(self)@.subrange(p + start, p + end)
                &&& final(self)@ == old(self)@.take(p + start) + old(self)@.skip(p + end)
            }),
            blocks_nonempty(old(self).blocks()) ==> blocks_nonempty(final(self).blocks()),
            forall|m: int|
                blocks_bounded(old(self).blocks(), m) ==> #[trigger] blocks_bounded(
                    final(self).blocks(),
                    m,
                ),
    {
        let ghost b = self.blocks();
        let ghost v = self@;
        let mut blk: Vec<u8> = Vec::new();
        std::mem::swap(&mut blk, &mut self.vecs[i]);
        let mut mid = blk.split_off(start);
        let mut tail = mid.split_off(end - start);
        proof {
            assert(tail@ =~= b[i as int].skip(end as int));
            assert(mid@ =~= b[i as int].subrange(start as int, end as int));
        }
        blk.append(&mut tail);
        let now_empty = blk.len() == 0;
        std::mem::swap(&mut blk, &mut self.vecs[i]);
        proof {
            lemma_split_at(b, i as int);
        }
        self.length = self.length - (end - start);
        proof {
            let x = b[i as int].take(start as int) + b[i as int].skip(end as int);
            assert(self.blocks() =~= b.update(i as int, x));
            lemma_replace_block(b, i as int, x);
            let p = prefix_len(b, i as int);
            let before = b.take(i as int).flatten();
            let after = b.skip(i as int + 1).flatten();
            assert(v.take(p + start) =~= before + b[i as int].take(start as int));
            assert(v.skip(p + end) =~= b[i as int].skip(end as int) + after);
            assert(self@ =~= v.take(p + start) + v.skip(p + end));
            assert(mid@ =~= v.subrange(p + start, p + end));
        }
        if now_empty {
            let ghost nb = self.blocks();
            self.vecs.remove(i);
            proof {
                assert(self.blocks() =~= nb.remove(i as int));
                lemma_remove_empty(nb, i as int);
                if blocks_nonempty(b) {
                    assert forall|k: int| 0 <= k < self.blocks().len() implies (
                    #[trigger] self.blocks()[k]).len() > 0 by {
                        if k < i {
                            assert(self.blocks()[k] == b[k]);
                        } else {
                            assert(self.blocks()[k] == b[k + 1]);
                        }
                    }
                }
                assert forall|m: int| blocks_bounded(b, m) implies #[trigger] blocks_bounded(
                    self.blocks(),
                    m,
                ) by {
                    assert forall|k: int| 0 <= k < self.blocks().len() implies (
                    #[trigger] self.blocks()[k]).len() <= m by {
                        if k < i {
                            assert(self.blocks()[k] == b[k]);
                        } else {
                            assert(self.blocks()[k] == b[k + 1]);
                        }
                    }
                }
            }
        } else {
            proof {
                if blocks_nonempty(b) {
                    assert forall|k: int| 0 <= k < self.blocks().len() implies (
                    #[trigger] self.blocks()[k]).len() > 0 by {
                        if k != i {
                            assert(self.blocks()[k] == b[k]);
                        }
                    }
                }
                assert forall|m: int| blocks_bounded(b, m) implies #[trigger] blocks_bounded(
                    self.blocks(),
                    m,
                ) by {
                    assert forall|k: int| 0 <= k < self.blocks().len() implies (
                    #[trigger] self.blocks()[k]).len() <= m by {
                        if k != i {
                            assert(self.blocks()[k] == b[k]);
                        }
                    }
                }
            }
        }
        mid
    }

    /// Take the bytes of `range` out of the store and return them, in order. Blocks left
    /// empty are removed.
    pub fn move_out<R: FromRange>(&mut self, range: R) -> (r: Result<Vec<u8>, StoreError>)
        requires
            old(self).wf(),
        ensures
            final(self).wf(),
            final(self).min_size() == old(self).min_size(),
            final(self).max_size() == old(self).max_size(),
            ({
                let (from, to) = range.spec_bounds(old(self)@.len());
                &&& to < from ==> r == Err::<Vec<u8>, StoreError>(StoreError::InvertedRange)
                    && final(self)@ == old(self)@
                &&& from <= to && to > old(self)@.len() ==> r == Err::<Vec<u8>, StoreError>(
                    StoreError::OutOfRange,
                ) && final(self)@ == old(self)@
                &&& from <= to <= old(self)@.len() ==> r.is_ok() && r.unwrap()@ == old(
                    self,
                )@.subrange(from, to) && final(self)@ == old(self)@.take(from) + old(
                    self,
                )@.skip(to)
            }),
            blocks_nonempty(old(self).blocks()) ==> blocks_nonempty(final(self).blocks()),
            blocks_bounded(old(self).blocks(), old(self).max_size() as int) ==> blocks_bounded(
                final(self).blocks(),
                old(self).max_size() as int,
            ),
    {
        let (from, to) = range.from_range(self);
        if to < from {
            return Err(StoreError::InvertedRange);
        }
        if to > self.length {
            return Err(StoreError::OutOfRange);
        }
        let ghost old_v = self@;
        let total = to - from;
        let mut res: Vec<u8> = Vec::new();
        let mut moved: usize = 0;
        proof {
            assert(old_v =~= old_v.take(from as int) + old_v.skip(from as int));
        }
        while moved < total
            invariant
                self.wf(),
                self.min_block == old(self).min_block,
                self.max_block == old(self).max_block,
                moved <= total,
                from + total <= old_v.len(),
                total == to - from,
                self@ == old_v.take(from as int) + old_v.skip(from + moved),
                res@ == old_v.subrange(from as int, from + moved),
                blocks_nonempty(old(self).blocks()) ==> blocks_nonempty(self.blocks()),
                blocks_bounded(old(self).blocks(), self.max_block as int) ==> blocks_bounded(
                    self.blocks(),
                    self.max_block as int,
                ),
            decreases total - moved,
        {
            let idx = self.pos_to_index(from, false).unwrap();
            let blen = self.vecs[idx.outer].len();
            let avail = blen - idx.inner;
            let count = if avail < total - moved {
                avail
            } else {
                total - moved
            };
            let ghost v = self@;
            let mut chunk = self.remove_in_block(idx.outer, idx.inner, idx.inner + count);
            res.append(&mut chunk);
            proof {
                assert(v.take(from as int) =~= old_v.take(from as int));
                assert(v.subrange(from as int, from + count) =~= old_v.subrange(
                    from + moved,
                    from + moved + count,
                ));
                assert(v.skip(from + count) =~= old_v.skip(from + moved + count));
            }
            moved = moved + count;
            proof {
                assert(res@ =~= old_v.subrange(from as int, from + moved));
            }
        }
        Ok(res)
    }

    /// Replace the part of `range` that exists by `values`: a range that runs past the
    /// end only takes what is there. Returns the bytes taken out.
    pub fn splice<R: FromRange>(&mut self, range: R, values: &[u8]) -> (r: Result<
        Vec<u8>,
        StoreError,
    >)
        requires
            old(self).wf(),
            old(self)@.len() + values@.len() <= usize::MAX,
        ensures
            final(self).wf(),
            final(self).min_size() == old(self).min_size(),
            final(self).max_size() == old(self).max_size(),
            ({
                let (from, to) = range.spec_bounds(old(self)@.len());
                &&& to < from ==> r == Err::<Vec<u8>, StoreError>(StoreError::InvertedRange)
                    && final(self)@ == old(self)@
                &&& from <= to && from > old(self)@.len() ==> r == Err::<Vec<u8>, StoreError>(
                    StoreError::OutOfRange,
                ) && final(self)@ == old(self)@
                &&& from <= to && from <= old(self)@.len() ==> r.is_ok() && r.unwrap()@
                    == splice_removed(old(self)@, from, to) && final(self)@ == spliced(
                    old(self)@,
                    from,
                    to,
                    values@,
                )
            }),
            blocks_nonempty(old(self).blocks()) ==> blocks_nonempty(final(self).blocks()),
            blocks_bounded(old(self).blocks(), old(self).max_size() as int) ==> blocks_bounded(
                final(self).blocks(),
                old(self).max_size() as int,
            ),
    {
        let (from, to) = range.from_range(self);
        if to < from {
            return Err(StoreError::InvertedRange);
        }
        if from > self.length {
            return Err(StoreError::OutOfRange);
        }
        let ghost old_v = self@;
        let end = if to < self.length {
            to
        } else {
            self.length
        };
        let res = match self.move_out(from..end) {
            Ok(res) => res,
            Err(e) => {
                return Err(e);
            },
        };
        let ghost mid = self@;
        let _ = self.insert(from, values);
        proof {
            assert(mid.take(from as int) =~= old_v.take(from as int));
            assert(mid.skip(from as int) =~= old_v.skip(end as int));
        }
        Ok(res)
    }

    /// Write `values` over the bytes from `offset` on, in place. Returns the bytes that
    /// were there.
    pub fn copy_in(&mut self, offset: usize, values: &[u8]) -> (r: Result<Vec<u8>, StoreError>)
        requires
            old(self).wf(),
        ensures
            final(self).wf(),
            final(self).min_size() == old(self).min_size(),
            final(self).max_size() == old(self).max_size(),
            final(self).blocks().len() == old(self).blocks().len(),
            forall|k: int|
                0 <= k < old(self).blocks().len() ==> (#[trigger] final(self).blocks()[k]).len()
                    == old(self).blocks()[k].len(),
            offset + values@.len() <= old(self)@.len() ==> r.is_ok() && r.unwrap()@ == old(
                self,
            )@.subrange(offset as int, offset + values@.len()) && final(self)@ == old(self)@.take(
                offset as int,
            ) + values@ + old(self)@.skip(offset + values@.len()),
            offset + values@.len() > old(self)@.len() ==> r == Err::<Vec<u8>, StoreError>(
                StoreError::OutOfRange,
            ) && final(self)@ == old(self)@,
    {
        if values.len() > self.length || offset > self.length - values.len() {
            return Err(StoreError::OutOfRange);
        }
        let ghost old_v = self@;
        let ghost old_b = self.blocks();
        let n = values.len();
        let mut walk = match self.mut_iter_range(offset..offset + n) {
            Ok(w) => w,
            Err(e) => {
                return Err(e);
            },
        };
        let mut res: Vec<u8> = Vec::new();
        let mut k: usize = 0;
        while k < n
            invariant
                walk.wf_for(self),
                self.min_block == old(self).min_block,
                self.max_block == old(self).max_block,
                self.blocks().len() == old_b.len(),
                forall|j: int|
                    0 <= j < old_b.len() ==> (#[trigger] self.blocks()[j]).len() == old_b[j].len(),
                k <= n,
                n == values@.len(),
                offset + n <= old_v.len(),
                walk.next_pos(self) == offset + k,
                walk.remaining() == n - k,
                self@ == old_v.take(offset as int) + values@.take(k as int) + old_v.skip(offset + k),
                res@ == old_v.subrange(offset as int, offset + k),
            decreases n - k,
        {
            let ghost v = self@;
            assert(v[offset + k] == old_v[offset + k]);
            let prev = walk.replace_next(self, values[k]).unwrap();
            res.push(prev);
            k = k + 1;
            proof {
                assert(self@ =~= old_v.take(offset as int) + values@.take(k as int) + old_v.skip(
                    offset + k,
                ));
                assert(res@ =~= old_v.subrange(offset as int, offset + k));
            }
        }
        proof {
            assert(values@.take(n as int) =~= values@);
        }
        Ok(res)
    }

    /// The length of each block, in order.
    pub fn get_lengths(&self) -> (r: Vec<usize>)
        requires
            self.wf(),
        ensures
            r@.len() == self.blocks().len(),
            forall|k: int| 0 <= k < r@.len() ==> r@[k] == (#[trigger] self.blocks()[k]).len(),
    {
        let mut r: Vec<usize> = Vec::new();
        let mut i: usize = 0;
        while i < self.vecs.len()
            invariant
                i <= self.vecs@.len(),
                r@.len() == i,
                forall|k: int| 0 <= k < i ==> r@[k] == (#[trigger] self.blocks()[k]).len(),
            decreases self.vecs@.len() - i,
        {
            r.push(self.vecs[i].len());
            i = i + 1;
        }
        r
    }
}


/// A walk that writes over a range of a store one byte at a time. It holds only its
/// position; each step is handed the store, so no two mutable borrows ever overlap.
pub struct MutItems {
    index: Index,
    num_elem: usize,
}

impl MutItems {
    spec fn pos_in(&self, seg: &SplitVec) -> int {
        prefix_len(seg.blocks(), self.index.outer as int) + self.index.inner
    }

    /// The walk is positioned inside `seg`.
    pub closed spec fn wf_for(&self, seg: &SplitVec) -> bool {
        &&& seg.wf()
        &&& self.index.outer <= seg.blocks().len()
        &&& self.index.outer < seg.blocks().len() ==> self.index.inner
            <= seg.blocks()[self.index.outer as int].len()
        &&& self.index.outer == seg.blocks().len() ==> self.index.inner == 0
        &&& self.pos_in(seg) + self.num_elem <= seg@.len()
    }

    /// The position of the next byte to write.
    pub closed spec fn next_pos(&self, seg: &SplitVec) -> int {
        self.pos_in(seg)
    }

    /// How many bytes the walk has yet to write.
    pub closed spec fn remaining(&self) -> nat {
        self.num_elem as nat
    }

    /// Write `value` over the next byte of the range and return the byte that was there;
    /// `None`, with nothing written, when the range is exhausted.
    pub fn replace_next(&mut self, seg: &mut SplitVec, value: u8) -> (r: Option<u8>)
        requires
            old(self).wf_for(old(seg)),
        ensures
            final(self).wf_for(final(seg)),
            final(seg).wf(),
            final(seg).blocks().len() == old(seg).blocks().len(),
            forall|k: int|
                0 <= k < old(seg).blocks().len() ==> (#[trigger] final(seg).blocks()[k]).len()
                    == old(seg).blocks()[k].len(),
            final(seg).min_size() == old(seg).min_size(),
            final(seg).max_size() == old(seg).max_size(),
            old(self).remaining() == 0 ==> r == None::<u8> && final(seg)@ == old(seg)@
                && final(self).remaining() == 0,
            old(self).remaining() > 0 ==> ({
                let p = old(self).next_pos(old(seg));
                &&& 0 <= p < old(seg)@.len()
                &&& r == Some(old(seg)@[p])
                &&& final(seg)@ == old(seg)@.update(p, value)
                &&& final(self).next_pos(final(seg)) == p + 1
                &&& final(self).remaining() == old(self).remaining() - 1
            }),
    {
        if self.num_elem == 0 {
            return None;
        }
        let ghost p = self.pos_in(seg);
        let ghost b = seg.blocks();
        let n = seg.vecs.len();
        proof {
            lemma_prefix_total(b);
        }
        while self.index.inner >= seg.vecs[self.index.outer].len()
            invariant
                n == b.len(),
                seg.wf(),
                seg.blocks() == b,
                self.pos_in(seg) == p,
                p < seg@.len(),
                self.index.outer < b.len(),
                self.index.inner <= b[self.index.outer as int].len(),
                self.num_elem == old(self).num_elem,
                *seg == *old(seg),
            decreases b.len() - self.index.outer,
        {
            proof {
                lemma_prefix_step(b, self.index.outer as int);
                if self.index.outer + 1 == b.len() {
                    lemma_prefix_total(b);
                }
            }
            self.index = Index { outer: self.index.outer + 1, inner: 0 };
        }
        let i = self.index.outer;
        let j = self.index.inner;
        let prev = seg.vecs[i][j];
        proof {
            lemma_flatten_index(b, i as int, j as int);
        }
        let mut blk: Vec<u8> = Vec::new();
        std::mem::swap(&mut blk, &mut seg.vecs[i]);
        blk.set(j, value);
        std::mem::swap(&mut blk, &mut seg.vecs[i]);
        proof {
            let nb = seg.blocks();
            assert(nb =~= b.update(i as int, b[i as int].update(j as int, value)));
            lemma_split_at(b, i as int);
            lemma_split_at(nb, i as int);
            assert(nb.take(i as int) =~= b.take(i as int));
            assert(nb.skip(i as int + 1) =~= b.skip(i as int + 1));
            assert(seg@ =~= old(seg)@.update(p, value));
            assert forall|k: int| 0 <= k < b.len() implies (#[trigger] nb[k]).len() == b[k].len()
                by {
                if k != i {
                    assert(nb[k] == b[k]);
                }
            }
            assert(prefix_len(nb, i as int) == prefix_len(b, i as int));
        }
        self.index = Index { outer: i, inner: j + 1 };
        self.num_elem = self.num_elem - 1;
        Some(prev)
    }
}

impl SplitVec {
    /// A walk that writes over the bytes of `range`; one that runs past the end stops at
    /// the end.
    pub fn mut_iter_range<R: FromRange>(&self, range: R) -> (r: Result<MutItems, StoreError>)
        requires
            self.wf(),
        ensures
            ({
                let (from, to) = range.spec_bounds(self@.len());
                &&& to < from ==> r == Err::<MutItems, StoreError>(StoreError::InvertedRange)
                &&& from <= to && from > self@.len() ==> r == Err::<MutItems, StoreError>(
                    StoreError::OutOfRange,
                )
                &&& from <= to && from <= self@.len() ==> r.is_ok() && r.unwrap().wf_for(self)
                    && r.unwrap().next_pos(self) == from && r.unwrap().remaining() == splice_removed(
                    self@,
                    from,
                    to,
                ).len()
            }),
    {
        let (from, to) = range.from_range(self);
        if to < from {
            return Err(StoreError::InvertedRange);
        }
        if from > self.length {
            return Err(StoreError::OutOfRange);
        }
        let end = if to < self.length {
            to
        } else {
            self.length
        };
        let idx = self.pos_to_index(from, true).unwrap();
        proof {
            lemma_prefix_total(self.blocks());
        }
        Ok(MutItems { index: idx, num_elem: end - from })
    }
}

/// Append `src[start..start + count]` to `dst`.
fn push_range(dst: &mut Vec<u8>, src: &[u8], start: usize, count: usize)
    requires
        start + count <= src@.len(),
    ensures
        final(dst)@ == old(dst)@ + src@.subrange(start as int, start + count),
{
    let total = src.len();
    let mut k: usize = 0;
    while k < count
        invariant
            k <= count,
            total == src@.len(),
            start + count <= src@.len(),
            dst@ == old(dst)@ + src@.subrange(start as int, start + k),
        decreases count - k,
    {
        dst.push(src[start + k]);
        k = k + 1;
        proof {
            assert(src@.subrange(start as int, start + k) =~= src@.subrange(
                start as int,
                start + k - 1,
            ).push(src@[start + k - 1]));
        }
    }
}

/// Append the bytes of `src` to `dst`.
fn push_all(dst: &mut Vec<u8>, src: &[u8])
    ensures
        final(dst)@ == old(dst)@ + src@,
{
    let mut k: usize = 0;
    while k < src.len()
        invariant
            k <= src@.len(),
            dst@ == old(dst)@ + src@.take(k as int),
        decreases src@.len() - k,
    {
        dst.push(src[k]);
        k = k + 1;
        proof {
            assert(src@.take(k as int) =~= src@.take(k as int - 1).push(src@[k as int - 1]));
        }
    }
    proof {
        assert(src@.take(src@.len() as int) =~= src@);
    }
}

/// Lengths follow a plain byte-array model: an insertion adds the inserted bytes, a
/// removal takes away the removed range, an overwrite keeps the length, and a splice
/// takes away what it removed and adds what it put in.
pub proof fn lemma_length_follows_model(s: Seq<u8>, from: int, to: int, values: Seq<u8>)
    requires
        0 <= from <= to,
        from <= s.len(),
    ensures
        (s.take(from) + values + s.skip(from)).len() == s.len() + values.len(),
        to <= s.len() ==> (s.take(from) + s.skip(to)).len() == s.len() - (to - from),
        from + values.len() <= s.len() ==> (s.take(from) + values + s.skip(
            from + values.len(),
        )).len() == s.len(),
        spliced(s, from, to, values).len() == s.len() - splice_removed(s, from, to).len()
            + values.len(),
{
}

/// Splicing back what a splice removed, over the span that it inserted, gives back the
/// content as it was before the first splice.
pub proof fn lemma_splice_round_trip(s: Seq<u8>, from: int, to: int, values: Seq<u8>)
    requires
        0 <= from <= to,
        from <= s.len(),
    ensures
        spliced(
            spliced(s, from, to, values),
            from,
            from + values.len(),
            splice_removed(s, from, to),
        ) == s,
{
    let t = spliced(s, from, to, values);
    let end = if to < s.len() { to } else { s.len() as int };
    assert(t.take(from) =~= s.take(from));
    assert(t.skip(from + values.len()) =~= s.skip(end));
    assert(spliced(t, from, from + values.len(), splice_removed(s, from, to)) =~= s);
}

/// After a byte is set, reading it gives that byte and every other byte is unchanged;
/// after an overwrite, each written position reads the written byte and every other
/// position is unchanged.
pub proof fn lemma_read_after_write(s: Seq<u8>, o: int, v: u8, values: Seq<u8>)
    requires
        0 <= o < s.len(),
    ensures
        s.update(o, v)[o] == v,
        forall|j: int| 0 <= j < s.len() && j != o ==> #[trigger] s.update(o, v)[j] == s[j],
        o + values.len() <= s.len() ==> ({
            let w = s.take(o) + values + s.skip(o + values.len());
            &&& w.len() == s.len()
            &&& forall|k: int| 0 <= k < values.len() ==> #[trigger] w[o + k] == values[k]
            &&& forall|j: int|
                0 <= j < s.len() && (j < o || j >= o + values.len()) ==> #[trigger] w[j] == s[j]
        }),
{
    if o + values.len() <= s.len() {
        let w = s.take(o) + values + s.skip(o + values.len());
        assert forall|k: int| 0 <= k < values.len() implies #[trigger] w[o + k] == values[k] by {
            assert(w[o + k] == (s.take(o) + values)[o + k]);
        }
        assert forall|j: int|
            0 <= j < s.len() && (j < o || j >= o + values.len()) implies #[trigger] w[j]
                == s[j] by {
            if j < o {
                assert(w[j] == s.take(o)[j]);
            } else {
                assert(w[j] == s.skip(o + values.len())[j - o - values.len()]);
            }
        }
    }
}

/// For a non-empty needle, the search from the start gives `Some(i)` exactly when the
/// needle occurs at `i` and nowhere before, and `None` exactly when it occurs nowhere.
pub proof fn lemma_find_first(hay: Seq<u8>, needle: Seq<u8>, i: int)
    requires
        needle.len() > 0,
    ensures
        first_occurrence(hay, needle, 0) == Some(i) <==> (occurs_at(hay, needle, i) && forall|
            j: int,
        | 0 <= j < i ==> !occurs_at(hay, needle, j)),
        first_occurrence(hay, needle, 0) == None::<int> <==> forall|j: int|
            !occurs_at(hay, needle, j),
{
    if occurs_at(hay, needle, i) && forall|j: int| 0 <= j < i ==> !occurs_at(hay, needle, j) {
        assert(0 <= i < hay.len() && occurs_at(hay, needle, i));
        let w = choose|w: int|
            0 <= w < hay.len() && occurs_at(hay, needle, w) && forall|j: int|
                0 <= j < w ==> !occurs_at(hay, needle, j);
        if w < i {
        } else if w > i {
            assert(!occurs_at(hay, needle, i));
        }
    }
    if first_occurrence(hay, needle, 0) == None::<int> {
        assert forall|j: int| !occurs_at(hay, needle, j) by {
            if occurs_at(hay, needle, j) {
                assert(0 <= j < hay.len());
            }
        }
    }
    if exists|j: int| 0 <= j < hay.len() && occurs_at(hay, needle, j) {
        let j = choose|j: int| 0 <= j < hay.len() && occurs_at(hay, needle, j);
        lemma_first_exists(hay, needle, 0, j);
    }
}

/// Where the needle occurs at `j`, there is a first occurrence from `from` on, at or
/// before `j`.
proof fn lemma_first_exists(hay: Seq<u8>, needle: Seq<u8>, from: int, j: int)
    requires
        from <= j < hay.len(),
        occurs_at(hay, needle, j),
    ensures
        exists|w: int|
            from <= w < hay.len() && occurs_at(hay, needle, w) && forall|k: int|
                from <= k < w ==> !occurs_at(hay, needle, k),
    decreases j - from,
{
    if exists|k: int| from <= k < j && occurs_at(hay, needle, k) {
        let k = choose|k: int| from <= k < j && occurs_at(hay, needle, k);
        lemma_first_exists(hay, needle, from, k);
    } else {
        assert(forall|k: int| from <= k < j ==> !occurs_at(hay, needle, k));
    }
}

} // verus!
