//! The prover: it takes each block that the sequencer accepted, derives a
//! proof from the block's hash, and marks the block as accepted on L1.

use crate::block::{BlockStatus, L2BlockView};
use crate::digest::{digest_hex, hash_text};
use crate::sequencer::{Sequencer, SequencerView};
use vstd::prelude::*;

verus! {

/// A prover and the sequencer whose blocks it proves.
pub struct Prover {
    pub sequencer: Sequencer,
}

/// The proof of a block with the given hash: the digest of the hash.
pub open spec fn proof_of(block_hash: Seq<char>) -> Seq<char> {
    digest_hex(block_hash)
}

/// The chain after the first `upto` blocks have been proved: each of them
/// that was `AcceptedOnL2` is `AcceptedOnL1`, and nothing else differs.
pub open spec fn proved_upto(blocks: Seq<L2BlockView>, upto: int) -> Seq<L2BlockView> {
    Seq::new(
        blocks.len(),
        |i: int|
            if i < upto && blocks[i].header.block_status == BlockStatus::AcceptedOnL2 {
                blocks[i].with_status(BlockStatus::AcceptedOnL1)
            } else {
                blocks[i]
            },
    )
}

/// The chain after every block has been proved.
pub open spec fn proved(blocks: Seq<L2BlockView>) -> Seq<L2BlockView> {
    proved_upto(blocks, blocks.len() as int)
}

/// The number and the proof of each block that was `AcceptedOnL2`, in chain
/// order.
pub open spec fn proofs(blocks: Seq<L2BlockView>) -> Seq<(u64, Seq<char>)>
    decreases blocks.len(),
{
    if blocks.len() == 0 {
        Seq::empty()
    } else {
        let earlier = proofs(blocks.drop_last());
        let last = blocks.last();
        if last.header.block_status == BlockStatus::AcceptedOnL2 {
            earlier.push((last.header.block_number, proof_of(last.header.hash())))
        } else {
            earlier
        }
    }
}

/// The views of numbered proofs.
pub open spec fn proofs_view(proofs: Seq<(u64, String)>) -> Seq<(u64, Seq<char>)> {
    proofs.map_values(|proof: (u64, String)| (proof.0, proof.1@))
}

impl Prover {
    /// A prover for the blocks of `sequencer`.
    pub fn new(sequencer: Sequencer) -> (prover: Self)
        ensures
            prover.sequencer == sequencer,
    {
        Prover { sequencer }
    }

    /// The proof of a block with the given hash.
    pub fn generate_proof(&self, block_hash: &str) -> (proof: String)
        ensures
            proof@ == proof_of(block_hash@),
    {
        hash_text(block_hash)
    }

    /// Proves every block that is `AcceptedOnL2`: the block becomes
    /// `AcceptedOnL1`, and its number and proof are handed back, in chain
    /// order. Nothing else changes.
    pub fn verify_proof(&mut self) -> (generated: Vec<(u64, String)>)
        requires
            old(self).sequencer@.wf(),
        ensures
            final(self).sequencer@ == (SequencerView {
                blocks: proved(old(self).sequencer@.blocks),
                ..old(self).sequencer@
            }),
            proofs_view(generated@) == proofs(old(self).sequencer@.blocks),
            final(self).sequencer@.wf(),
            old(self).sequencer@.chained() ==> final(self).sequencer@.chained(),
    {
        let ghost start = self.sequencer@;
        let count = self.sequencer.list_blocks().len();
        let mut generated: Vec<(u64, String)> = Vec::new();
        let mut i: usize = 0;
        assert(proved_upto(start.blocks, 0) == start.blocks);
        assert(start.blocks.take(0) == Seq::<L2BlockView>::empty());
        assert(proofs_view(generated@) == Seq::<(u64, Seq<char>)>::empty());
        while i < count
            invariant
                i <= count,
                count == start.blocks.len(),
                start.wf(),
                self.sequencer@ == (SequencerView {
                    blocks: proved_upto(start.blocks, i as int),
                    ..start
                }),
                self.sequencer@.wf(),
                start.chained() ==> self.sequencer@.chained(),
                proofs_view(generated@) == proofs(start.blocks.take(i as int)),
            decreases count - i,
        {
            let ghost before = proofs_view(generated@);
            let block = &self.sequencer.list_blocks()[i];
            proof {
                let next = start.blocks.take(i + 1);
                assert(next.drop_last() == start.blocks.take(i as int));
                assert(next.last() == start.blocks[i as int]);
                assert(block@ == proved_upto(start.blocks, i as int)[i as int]);
                assert(start.blocks[i as int].header.block_number == i + 1);
            }
            if block.header.block_status == BlockStatus::AcceptedOnL2 {
                let number = block.header.block_number;
                let hash = block.get_block_hash();
                let proof = self.generate_proof(hash.as_str());
                self.sequencer.set_block_status(number, BlockStatus::AcceptedOnL1);
                generated.push((number, proof));
                assert(proofs_view(generated@) == before.push((number, proof@)));
            }
            assert(self.sequencer@.blocks == proved_upto(start.blocks, i + 1));
            i = i + 1;
        }
        assert(start.blocks.take(count as int) == start.blocks);
        generated
    }
}

} // verus!
