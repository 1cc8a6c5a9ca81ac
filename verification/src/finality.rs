//! The verifier: it checks the proofs of the blocks that reached L1 and
//! reports which of them are final.

use crate::block::{BlockStatus, L2BlockView};
use crate::sequencer::Sequencer;
use vstd::prelude::*;

verus! {

/// A verifier and the sequencer whose blocks it checks.
pub struct Verifier {
    pub sequencer: Sequencer,
}

/// The numbers of the blocks that are final. Each block that is
/// `AcceptedOnL1` takes the next outcome, in chain order, and is final if the
/// outcome says that its proof held. Blocks for which no outcome is left are
/// not checked.
pub open spec fn finalized(blocks: Seq<L2BlockView>, outcomes: Seq<bool>) -> Seq<u64>
    decreases blocks.len(),
{
    if blocks.len() == 0 || outcomes.len() == 0 {
        Seq::empty()
    } else if blocks[0].header.block_status != BlockStatus::AcceptedOnL1 {
        finalized(blocks.drop_first(), outcomes)
    } else if outcomes[0] {
        seq![blocks[0].header.block_number] + finalized(
            blocks.drop_first(),
            outcomes.drop_first(),
        )
    } else {
        finalized(blocks.drop_first(), outcomes.drop_first())
    }
}

/// How many blocks await verification: those that are `AcceptedOnL1`.
pub open spec fn awaiting(blocks: Seq<L2BlockView>) -> nat
    decreases blocks.len(),
{
    if blocks.len() == 0 {
        0
    } else {
        awaiting(blocks.drop_last()) + if blocks.last().header.block_status
            == BlockStatus::AcceptedOnL1 {
            1nat
        } else {
            0nat
        }
    }
}

impl Verifier {
    /// A verifier for the blocks of `sequencer`.
    pub fn new(sequencer: Sequencer) -> (verifier: Self)
        ensures
            verifier.sequencer == sequencer,
    {
        Verifier { sequencer }
    }

    /// How many blocks await verification.
    pub fn awaiting_verification(&self) -> (count: usize)
        ensures
            count == awaiting(self.sequencer@.blocks),
    {
        let blocks = self.sequencer.list_blocks();
        let ghost views = self.sequencer@.blocks;
        let mut count: usize = 0;
        let mut i: usize = 0;
        assert(views.take(0) == Seq::<L2BlockView>::empty());
        while i < blocks.len()
            invariant
                i <= blocks.len(),
                blocks.len() == views.len(),
                views == crate::sequencer::blocks_view(blocks@),
                count == awaiting(views.take(i as int)),
                count <= i,
            decreases blocks.len() - i,
        {
            proof {
                let next = views.take(i + 1);
                assert(next.drop_last() == views.take(i as int));
                assert(next.last() == blocks@[i as int]@);
            }
            if blocks[i].header.block_status == BlockStatus::AcceptedOnL1 {
                count = count + 1;
            }
            i = i + 1;
        }
        assert(views.take(blocks.len() as int) == views);
        count
    }

    /// Applies the outcomes of proof verification to the blocks that await
    /// it, in chain order, and hands back the numbers of those that are now
    /// final. No block changes: a final block stays `AcceptedOnL1`.
    pub fn verify_proofs(&self, outcomes: &Vec<bool>) -> (verified: Vec<u64>)
        ensures
            verified@ == finalized(self.sequencer@.blocks, outcomes@),
    {
        let blocks = self.sequencer.list_blocks();
        let ghost views = self.sequencer@.blocks;
        let mut verified: Vec<u64> = Vec::new();
        let mut i: usize = 0;
        let mut used: usize = 0;
        assert(views.skip(0) == views);
        assert(outcomes@.skip(0) == outcomes@);
        while i < blocks.len() && used < outcomes.len()
            invariant
                i <= blocks.len(),
                used <= outcomes.len(),
                blocks.len() == views.len(),
                views == crate::sequencer::blocks_view(blocks@),
                verified@ + finalized(views.skip(i as int), outcomes@.skip(used as int))
                    == finalized(views, outcomes@),
            decreases blocks.len() - i,
        {
            let ghost rest = views.skip(i as int);
            let ghost left = outcomes@.skip(used as int);
            proof {
                assert(rest[0] == blocks@[i as int]@);
                assert(left[0] == outcomes@[used as int]);
                assert(rest.drop_first() == views.skip(i + 1));
                assert(left.drop_first() == outcomes@.skip(used + 1));
            }
            let block = &blocks[i];
            if block.header.block_status == BlockStatus::AcceptedOnL1 {
                if outcomes[used] {
                    let ghost before = verified@;
                    verified.push(block.header.block_number);
                    assert(verified@ + finalized(rest.drop_first(), left.drop_first()) == before
                        + (seq![rest[0].header.block_number] + finalized(
                        rest.drop_first(),
                        left.drop_first(),
                    )));
                }
                used = used + 1;
            }
            i = i + 1;
        }
        assert(finalized(views.skip(i as int), outcomes@.skip(used as int)) == Seq::<u64>::empty());
        verified
    }
}

} // verus!
