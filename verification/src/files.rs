//! Entry content kept in fixed-size blocks, and the metadata stored beside it.

use crate::time::{instant, DateTime};
use vstd::prelude::*;
use vstd::slice::{slice_subrange, slice_to_vec};

verus! {

/// Size in bytes of every block of an entry's content but the last.
pub const BLOCK_SIZE: usize = 65_536;

/// Storage layout of the entries.
#[derive(Clone, Copy, Debug)]
pub struct Files;

impl Files {
    /// Size in bytes of a full content block.
    pub fn block_size() -> (size: usize)
        ensures
            size == BLOCK_SIZE,
    {
        BLOCK_SIZE
    }

    /// Name of the collection that holds the entries.
    pub fn files_name() -> (name: &'static str)
        ensures
            name@ == "files"@,
    {
        "files"
    }

    /// Name of the collection that holds the content blocks.
    pub fn blocks_name() -> (name: &'static str)
        ensures
            name@ == "blocks"@,
    {
        "blocks"
    }
}

/// What is stored beside an entry's content: when it expires, if ever, and who created it.
#[derive(Debug)]
pub struct Metadata {
    pub delete_at: Option<DateTime>,
    pub owner: String,
}

/// Metadata as the expiry rules see it.
pub struct MetadataView {
    pub delete_at: Option<int>,
    pub owner: Seq<char>,
}

impl View for Metadata {
    type V = MetadataView;

    open spec fn view(&self) -> MetadataView {
        MetadataView { delete_at: instant(self.delete_at), owner: self.owner@ }
    }
}

impl Clone for Metadata {
    fn clone(&self) -> (copy: Metadata)
        ensures
            copy == *self,
    {
        Metadata { delete_at: self.delete_at, owner: self.owner.clone() }
    }
}

/// The bytes that a sequence of blocks holds, first block first.
pub open spec fn joined(blocks: Seq<Vec<u8>>) -> Seq<u8>
    decreases blocks.len(),
{
    if blocks.len() == 0 {
        Seq::empty()
    } else {
        joined(blocks.drop_last()) + blocks.last()@
    }
}

/// Whether `blocks` is a valid segmentation: no block is empty or longer than
/// [`BLOCK_SIZE`], and every block but the last is full.
pub open spec fn chunked(blocks: Seq<Vec<u8>>) -> bool {
    &&& forall|i: int| 0 <= i < blocks.len() ==> 0 < (#[trigger] blocks[i])@.len() <= BLOCK_SIZE
    &&& forall|i: int| 0 <= i < blocks.len() - 1 ==> (#[trigger] blocks[i])@.len() == BLOCK_SIZE
}

/// Joining the blocks after one more block was added.
pub proof fn lemma_joined_push(blocks: Seq<Vec<u8>>, block: Vec<u8>)
    ensures
        joined(blocks.push(block)) == joined(blocks) + block@,
{
    assert(blocks.push(block).drop_last() =~= blocks);
}

/// The joined length of a valid segmentation is fixed by the number of blocks and the length
/// of the last one.
pub proof fn lemma_joined_len(blocks: Seq<Vec<u8>>)
    requires
        chunked(blocks),
    ensures
        blocks.len() == 0 ==> joined(blocks).len() == 0,
        blocks.len() > 0 ==> joined(blocks).len() == (blocks.len() - 1) * BLOCK_SIZE
            + blocks.last()@.len(),
    decreases blocks.len(),
{
    if blocks.len() > 0 {
        let front = blocks.drop_last();
        lemma_joined_len(front);
        if front.len() > 0 {
            assert(front.last() == blocks[blocks.len() - 2]);
            assert((front.len() - 1) * BLOCK_SIZE + BLOCK_SIZE == (blocks.len() - 1)
                * BLOCK_SIZE) by (nonlinear_arith)
                requires
                    front.len() == blocks.len() - 1,
            ;
        }
    }
}

/// Number of blocks that hold `len` bytes.
pub open spec fn blocks_for(len: nat) -> nat {
    ((len + BLOCK_SIZE - 1) / (BLOCK_SIZE as int)) as nat
}

/// The block at `index` of `content`: its bytes from `index * BLOCK_SIZE` on, up to
/// [`BLOCK_SIZE`] of them.
pub open spec fn block_at(content: Seq<u8>, index: int) -> Seq<u8> {
    content.subrange(
        index * BLOCK_SIZE,
        if (index + 1) * BLOCK_SIZE <= content.len() {
            (index + 1) * BLOCK_SIZE
        } else {
            content.len() as int
        },
    )
}

/// A valid segmentation is fixed by the bytes it holds.
pub proof fn lemma_chunked_blocks(blocks: Seq<Vec<u8>>)
    requires
        chunked(blocks),
    ensures
        blocks.len() == blocks_for(joined(blocks).len()),
        forall|i: int| 0 <= i < blocks.len() ==> (#[trigger] blocks[i])@ == block_at(joined(blocks), i),
    decreases blocks.len(),
{
    lemma_joined_len(blocks);
    if blocks.len() > 0 {
        let front = blocks.drop_last();
        let whole = joined(blocks);
        lemma_chunked_blocks(front);
        lemma_joined_len(front);
        assert(joined(front).len() == (blocks.len() - 1) * BLOCK_SIZE) by {
            if front.len() > 0 {
                assert(front.last() == blocks[blocks.len() - 2]);
            }
        }
        assert forall|i: int| 0 <= i < blocks.len() implies (#[trigger] blocks[i])@ == block_at(
            whole,
            i,
        ) by {
            if i < blocks.len() - 1 {
                assert(front[i] == blocks[i]);
                assert((i + 1) * BLOCK_SIZE <= joined(front).len());
                assert(block_at(joined(front), i) =~= block_at(whole, i));
            } else {
                assert(blocks[i]@ =~= block_at(whole, i));
            }
        }
    }
}

/// The content of one entry: an append-only sequence of bytes, held in blocks of
/// [`BLOCK_SIZE`] bytes so that it can be written and read a block at a time.
///
/// Its view is the bytes in order.
#[derive(Debug)]
pub struct Contents {
    blocks: Vec<Vec<u8>>,
    len: usize,
}

impl View for Contents {
    type V = Seq<u8>;

    closed spec fn view(&self) -> Seq<u8> {
        joined(self.blocks@)
    }
}

impl Contents {
    #[verifier::type_invariant]
    spec fn inv(self) -> bool {
        &&& chunked(self.blocks@)
        &&& self.len == joined(self.blocks@).len()
    }

    /// Empty content.
    pub fn new() -> (contents: Contents)
        ensures
            contents@ == Seq::<u8>::empty(),
    {
        Contents { blocks: Vec::new(), len: 0 }
    }

    /// Number of bytes.
    pub fn len(&self) -> (len: usize)
        ensures
            len == self@.len(),
    {
        proof {
            use_type_invariant(self);
        }
        self.len
    }

    /// Whether there are no bytes.
    pub fn is_empty(&self) -> (empty: bool)
        ensures
            empty == (self@.len() == 0),
    {
        proof {
            use_type_invariant(self);
        }
        self.len == 0
    }

    /// Number of blocks.
    pub fn block_count(&self) -> (count: usize)
        ensures
            count == blocks_for(self@.len()),
    {
        proof {
            use_type_invariant(self);
            lemma_chunked_blocks(self.blocks@);
        }
        self.blocks.len()
    }

    /// The block at `index`, for reading the content a block at a time; `None` past the last
    /// block.
    pub fn block(&self, index: usize) -> (block: Option<&[u8]>)
        ensures
            match block {
                Some(block) => index < blocks_for(self@.len()) && block@ == block_at(
                    self@,
                    index as int,
                ),
                None => index >= blocks_for(self@.len()),
            },
    {
        proof {
            use_type_invariant(self);
            lemma_chunked_blocks(self.blocks@);
        }
        if index < self.blocks.len() {
            Some(self.blocks[index].as_slice())
        } else {
            None
        }
    }

    /// All bytes in one vector.
    pub fn to_vec(&self) -> (bytes: Vec<u8>)
        ensures
            bytes@ == self@,
    {
        let mut bytes: Vec<u8> = Vec::new();
        let mut i: usize = 0;
        while i < self.blocks.len()
            invariant
                i <= self.blocks@.len(),
                bytes@ == joined(self.blocks@.subrange(0, i as int)),
            decreases self.blocks@.len() - i,
        {
            let ghost before = bytes@;
            bytes.extend_from_slice(self.blocks[i].as_slice());
            proof {
                assert(bytes@ =~= before + self.blocks@[i as int]@);
                assert(self.blocks@.subrange(0, i + 1).drop_last() =~= self.blocks@.subrange(
                    0,
                    i as int,
                ));
            }
            i = i + 1;
        }
        assert(self.blocks@.subrange(0, self.blocks@.len() as int) =~= self.blocks@);
        bytes
    }

    /// Drops all blocks.
    pub fn truncate(&mut self)
        ensures
            final(self)@ == Seq::<u8>::empty(),
    {
        *self = Contents::new();
    }

    /// Appends `data`, topping up the last block and adding blocks as needed.
    pub fn append(&mut self, data: &[u8])
        requires
            old(self)@.len() + data@.len() <= usize::MAX,
        ensures
            final(self)@ == old(self)@ + data@,
    {
        proof {
            use_type_invariant(&*self);
        }
        let mut taken = Contents::new();
        core::mem::swap(self, &mut taken);
        let Contents { blocks, len } = taken;
        let mut blocks = blocks;
        let ghost start = blocks@;
        let mut pos: usize = 0;
        assert(data@.subrange(0, 0) =~= Seq::<u8>::empty());
        assert(joined(start) + Seq::<u8>::empty() =~= joined(start));
        while pos < data.len()
            invariant
                pos <= data@.len(),
                chunked(blocks@),
                joined(blocks@) == joined(start) + data@.subrange(0, pos as int),
            decreases data@.len() - pos,
        {
            let ghost before = blocks@;
            let count = blocks.len();
            let left = data.len() - pos;
            if count > 0 && blocks[count - 1].len() < BLOCK_SIZE {
                let room = BLOCK_SIZE - blocks[count - 1].len();
                let take = if left < room { left } else { room };
                let mut last = blocks.pop().unwrap();
                let ghost partial = last@;
                last.extend_from_slice(slice_subrange(data, pos, pos + take));
                proof {
                    assert(last@ =~= partial + data@.subrange(pos as int, pos + take));
                    assert(before.drop_last() =~= blocks@);
                    assert(before.last()@ == partial);
                    assert(joined(before) == joined(blocks@) + partial);
                    lemma_joined_push(blocks@, last);
                    let chunk = data@.subrange(pos as int, pos + take);
                    assert(joined(blocks@) + (partial + chunk) =~= (joined(blocks@) + partial)
                        + chunk);
                    assert((joined(start) + data@.subrange(0, pos as int)) + chunk =~= joined(start)
                        + (data@.subrange(0, pos as int) + chunk));
                    assert(data@.subrange(0, pos as int) + data@.subrange(pos as int, pos + take)
                        =~= data@.subrange(0, pos + take));
                }
                blocks.push(last);
                pos = pos + take;
            } else {
                let take = if left < BLOCK_SIZE { left } else { BLOCK_SIZE };
                let block = slice_to_vec(slice_subrange(data, pos, pos + take));
                proof {
                    lemma_joined_push(blocks@, block);
                    let chunk = data@.subrange(pos as int, pos + take);
                    assert((joined(start) + data@.subrange(0, pos as int)) + chunk =~= joined(start)
                        + (data@.subrange(0, pos as int) + chunk));
                    assert(data@.subrange(0, pos as int) + data@.subrange(pos as int, pos + take)
                        =~= data@.subrange(0, pos + take));
                }
                blocks.push(block);
                pos = pos + take;
            }
        }
        assert(data@.subrange(0, data@.len() as int) =~= data@);
        *self = Contents { blocks, len: len + data.len() };
    }
}

} // verus!
