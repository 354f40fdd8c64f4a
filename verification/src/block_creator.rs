//! Blocks made from finalized snapshots, and the checks a block must pass
//! against its predecessor.
use vstd::prelude::*;
use vstd::string::StringExecFns;
use crate::snapshot::{Snapshot, SnapshotView, digest_views};
use crate::text::{decimal, decimal_text};
use crate::types::bytes_equal;

verus! {

/// A block of the chain.
pub struct Block {
    /// Block number
    pub number: u64,
    /// Block hash
    pub hash: Vec<u8>,
    /// Hash of the parent block
    pub parent_hash: Vec<u8>,
    /// Timestamp (milliseconds since the epoch)
    pub timestamp: u64,
    /// Transaction digests
    pub transactions: Vec<Vec<u8>>,
    /// Address of the validator that made the block
    pub validator: Vec<u8>,
    /// Fuel used
    pub gas_used: u64,
    /// Fuel limit
    pub gas_limit: u64,
}

/// The abstract content of a block.
pub struct BlockView {
    pub number: u64,
    pub hash: Seq<u8>,
    pub parent_hash: Seq<u8>,
    pub timestamp: u64,
    pub transactions: Seq<Seq<u8>>,
    pub validator: Seq<u8>,
    pub gas_used: u64,
    pub gas_limit: u64,
}

impl View for Block {
    type V = BlockView;

    open spec fn view(&self) -> BlockView {
        BlockView {
            number: self.number,
            hash: self.hash@,
            parent_hash: self.parent_hash@,
            timestamp: self.timestamp,
            transactions: self.transactions@.map_values(|t: Vec<u8>| t@),
            validator: self.validator@,
            gas_used: self.gas_used,
            gas_limit: self.gas_limit,
        }
    }
}

impl Block {
    /// A block with the given contents.
    pub fn new(
        number: u64,
        hash: Vec<u8>,
        parent_hash: Vec<u8>,
        timestamp: u64,
        transactions: Vec<Vec<u8>>,
        validator: Vec<u8>,
        gas_used: u64,
        gas_limit: u64,
    ) -> (r: Self)
        ensures
            r@ == (BlockView {
                number,
                hash: hash@,
                parent_hash: parent_hash@,
                timestamp,
                transactions: transactions@.map_values(|t: Vec<u8>| t@),
                validator: validator@,
                gas_used,
                gas_limit,
            }),
    {
        Block { number, hash, parent_hash, timestamp, transactions, validator, gas_used, gas_limit }
    }
}

/// The bytes of a digest.
fn digest_bytes(d: &[u8; 64]) -> (r: Vec<u8>)
    ensures
        r@ == d@,
{
    let mut out: Vec<u8> = Vec::new();
    let mut i: usize = 0;
    while i < 64
        invariant
            i <= 64,
            d@.len() == 64,
            out@ == d@.subrange(0, i as int),
        decreases 64 - i,
    {
        out.push(d[i]);
        i = i + 1;
        assert(out@ =~= d@.subrange(0, i as int));
    }
    assert(out@ =~= d@);
    out
}

/// The block made from a snapshot by a validator: numbered and timed like
/// the snapshot, hashed by its digest, linked to the previous snapshot's
/// digest, with its transactions and no fuel counted.
pub open spec fn block_of(s: SnapshotView, validator: Seq<u8>) -> BlockView {
    BlockView {
        number: s.sequence_number,
        hash: s.digest,
        parent_hash: s.previous_digest,
        timestamp: s.timestamp,
        transactions: s.transactions,
        validator,
        gas_used: 0,
        gas_limit: 0,
    }
}

/// Why a block fails its checks against the lookup of its predecessor, if
/// it does. The genesis block passes; any other block needs its
/// predecessor, must name its hash, must not be older, and must have a
/// 32-byte hash.
pub open spec fn block_fault(b: BlockView, previous: Result<Option<BlockView>, Seq<char>>) -> Option<
    Seq<char>,
> {
    if b.number == 0 {
        None
    } else {
        match previous {
            Err(e) => Some("Failed to get previous block: "@ + e),
            Ok(None) => Some("Previous block not found"@),
            Ok(Some(p)) => if b.parent_hash != p.hash {
                Some("Block "@ + decimal_text(b.number as nat) + " parent hash mismatch"@)
            } else if b.timestamp < p.timestamp {
                Some("Block "@ + decimal_text(b.number as nat) + " timestamp is before previous block"@)
            } else if b.hash.len() == 0 {
                Some("Block hash cannot be empty"@)
            } else if b.hash.len() != 32 {
                Some("Block hash must be 32 bytes, got "@ + decimal_text(b.hash.len()))
            } else {
                None
            },
        }
    }
}

/// The view of a predecessor lookup.
pub open spec fn lookup_view(r: Result<Option<Block>, String>) -> Result<Option<BlockView>, Seq<char>> {
    match r {
        Ok(Some(b)) => Ok(Some(b@)),
        Ok(None) => Ok(None),
        Err(e) => Err(e@),
    }
}

/// Block creator: turns finalized snapshots into blocks and checks blocks.
pub struct BlockCreator;

impl BlockCreator {
    /// A block creator.
    pub fn new() -> (r: Self) {
        BlockCreator
    }

    /// The block made from a finalized snapshot by `validator_address`.
    pub fn create_block_from_snapshot(&self, snapshot: &Snapshot, validator_address: Vec<u8>) -> (r:
        Result<Block, String>)
        ensures
            r is Ok,
            r->Ok_0@ == block_of(snapshot@, validator_address@),
    {
        let mut transactions: Vec<Vec<u8>> = Vec::new();
        let mut i: usize = 0;
        while i < snapshot.transactions.len()
            invariant
                i <= snapshot.transactions@.len(),
                transactions@.map_values(|t: Vec<u8>| t@) == digest_views(snapshot.transactions@).take(i as int),
            decreases snapshot.transactions@.len() - i,
        {
            let ghost t0 = transactions@.map_values(|t: Vec<u8>| t@);
            transactions.push(digest_bytes(&snapshot.transactions[i]));
            proof {
                assert(transactions@.map_values(|t: Vec<u8>| t@) =~= t0.push(snapshot.transactions@[i as int]@));
                assert(digest_views(snapshot.transactions@).take(i + 1) =~= digest_views(snapshot.transactions@).take(i as int).push(
                    snapshot.transactions@[i as int]@,
                ));
            }
            i = i + 1;
        }
        assert(digest_views(snapshot.transactions@).take(i as int) =~= digest_views(snapshot.transactions@));
        let block = Block::new(
            snapshot.sequence_number,
            digest_bytes(&snapshot.digest),
            digest_bytes(&snapshot.previous_digest),
            snapshot.timestamp,
            transactions,
            validator_address,
            0,
            0,
        );
        Ok(block)
    }

    /// Check a block against the lookup of its predecessor (block
    /// `number - 1`); see `block_fault`.
    pub fn verify_block(&self, block: &Block, previous: Result<Option<Block>, String>) -> (r: Result<
        (),
        String,
    >)
        ensures
            block_fault(block@, lookup_view(previous)) is None ==> r is Ok,
            block_fault(block@, lookup_view(previous)) matches Some(m) ==> r is Err && r->Err_0@ == m,
    {
        if block.number == 0 {
            return Ok(());
        }
        let prev = match previous {
            Err(e) => {
                let mut m = "Failed to get previous block: ".to_owned();
                m.append(e.as_str());
                return Err(m);
            },
            Ok(None) => {
                return Err("Previous block not found".to_owned());
            },
            Ok(Some(p)) => p,
        };
        if !bytes_equal(&block.parent_hash, &prev.hash) {
            let mut m = "Block ".to_owned();
            m.append(decimal(block.number).as_str());
            m.append(" parent hash mismatch");
            return Err(m);
        }
        if block.timestamp < prev.timestamp {
            let mut m = "Block ".to_owned();
            m.append(decimal(block.number).as_str());
            m.append(" timestamp is before previous block");
            return Err(m);
        }
        if block.hash.len() == 0 {
            return Err("Block hash cannot be empty".to_owned());
        }
        if block.hash.len() != 32 {
            let mut m = "Block hash must be 32 bytes, got ".to_owned();
            m.append(decimal(block.hash.len() as u64).as_str());
            return Err(m);
        }
        Ok(())
    }
}

/// A block made from a snapshot that follows a finalized one links to it:
/// it passes its predecessor's checks on the link and the times as long as
/// the snapshot points to the predecessor's digest and is not older.
pub proof fn lemma_snapshot_blocks_link(
    prev: SnapshotView,
    next: SnapshotView,
    validator: Seq<u8>,
    other: Seq<u8>,
)
    requires
        next.sequence_number > 0,
        next.previous_digest == prev.digest,
        next.timestamp >= prev.timestamp,
        next.digest.len() == 32,
    ensures
        block_fault(block_of(next, validator), Ok(Some(block_of(prev, other)))) is None,
{
}

} // verus!
