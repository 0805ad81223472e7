//! The data model: hashes, addresses, transactions and the chain snapshot
//! that lineage resolution works on, together with their well-formedness.

use vstd::prelude::*;

verus! {

/// Largest amount of satoshis any single output can carry (21 million coins
/// of 100_000_000 satoshis each). Well-formed chain data never exceeds it.
pub const MAX_MONEY_SATS: u64 = 2_100_000_000_000_000;

/// Number of satoshis in one whole coin.
pub const SATS_PER_COIN: u64 = 100_000_000;

/// The network a validated address belongs to. Addresses of a different
/// network than the one the workflow operates on are a hard error.
#[derive(Clone, Copy, PartialEq, Eq, Structural, Debug)]
pub enum NetworkId {
    Mainnet,
    Testnet,
    Regtest,
}

/// A 32-byte identifier (transaction id or block hash), held in the byte
/// order in which it is displayed as hex.
#[derive(Clone, Debug)]
pub struct Hash32 {
    pub bytes: Vec<u8>,
}

impl View for Hash32 {
    type V = Seq<u8>;

    open spec fn view(&self) -> Seq<u8> {
        self.bytes@
    }
}

impl Hash32 {
    pub open spec fn wf(self) -> bool {
        self.bytes@.len() == 32
    }

    /// Byte-wise equality of two identifiers.
    pub fn matches(&self, other: &Hash32) -> (r: bool)
        ensures
            r == (self@ == other@),
    {
        if self.bytes.len() != other.bytes.len() {
            assert(self@.len() != other@.len());
            return false;
        }
        let n = self.bytes.len();
        let mut i: usize = 0;
        while i < n
            invariant
                n == self.bytes@.len(),
                n == other.bytes@.len(),
                i <= n,
                forall|j: int| 0 <= j < i ==> self.bytes@[j] == other.bytes@[j],
            decreases n - i,
        {
            if self.bytes[i] != other.bytes[i] {
                return false;
            }
            i = i + 1;
        }
        proof {
            assert(self@ =~= other@);
        }
        true
    }

    /// A copy with the same bytes.
    pub fn duplicate(&self) -> (r: Hash32)
        ensures
            r@ == self@,
    {
        let mut out: Vec<u8> = Vec::new();
        let n = self.bytes.len();
        let mut i: usize = 0;
        while i < n
            invariant
                n == self.bytes@.len(),
                i <= n,
                out@ == self.bytes@.take(i as int),
            decreases n - i,
        {
            out.push(self.bytes[i]);
            proof {
                assert(out@ =~= self.bytes@.take(i + 1));
            }
            i = i + 1;
        }
        proof {
            assert(self.bytes@.take(n as int) =~= self.bytes@);
        }
        Hash32 { bytes: out }
    }
}

/// A validated address: its text form, tagged with the network it was
/// validated for.
#[derive(Clone, Debug)]
pub struct Address {
    pub text: String,
    pub network: NetworkId,
}

impl Address {
    /// A copy with the same text and network.
    pub fn duplicate(&self) -> (r: Address)
        ensures
            r.text@ == self.text@,
            r.network == self.network,
    {
        Address { text: self.text.clone(), network: self.network }
    }
}

/// A reference to one output of one transaction; inputs use it to point at
/// the output they spend.
#[derive(Clone, Debug)]
pub struct UtxoRef {
    pub txid: Hash32,
    pub output_index: usize,
}

/// One transaction output: its value in satoshis and, where the output
/// script decodes to a standard address, that address.
#[derive(Clone, Debug)]
pub struct TransactionOutput {
    pub value_sats: u64,
    pub address: Option<Address>,
}

impl TransactionOutput {
    pub open spec fn wf(self) -> bool {
        self.value_sats <= MAX_MONEY_SATS
    }
}

/// A fully decoded transaction: ordered inputs, ordered outputs, and the
/// confirming block's hash where one exists. An unconfirmed transaction has
/// no block hash; resolution refuses it.
#[derive(Clone, Debug)]
pub struct ConfirmedTransaction {
    pub txid: Hash32,
    pub inputs: Vec<UtxoRef>,
    pub outputs: Vec<TransactionOutput>,
    pub block_hash: Option<Hash32>,
}

impl ConfirmedTransaction {
    pub open spec fn wf(self) -> bool {
        &&& self.txid.wf()
        &&& forall|i: int|
            0 <= i < self.inputs@.len() ==> (#[trigger] self.inputs@[i]).txid.wf()
        &&& forall|i: int| 0 <= i < self.outputs@.len() ==> (#[trigger] self.outputs@[i]).wf()
        &&& self.block_hash matches Some(h) ==> h.wf()
    }
}

/// Metadata of one mined block.
#[derive(Clone, Debug)]
pub struct BlockRecord {
    pub hash: Hash32,
    pub height: u64,
}

/// A snapshot of the chain data the resolver may consult: transaction lookup
/// and block lookup, each modelled as a pure function from identifier to
/// record (first match wins).
#[derive(Clone, Debug)]
pub struct ChainView {
    pub transactions: Vec<ConfirmedTransaction>,
    pub blocks: Vec<BlockRecord>,
}

impl ChainView {
    pub open spec fn wf(self) -> bool {
        forall|i: int|
            0 <= i < self.transactions@.len() ==> (#[trigger] self.transactions@[i]).wf()
    }
}

/// Look a transaction up by id: the first record whose txid matches.
pub open spec fn spec_find_tx(txs: Seq<ConfirmedTransaction>, id: Seq<u8>) -> Option<
    ConfirmedTransaction,
>
    decreases txs.len(),
{
    if txs.len() == 0 {
        None
    } else if txs[0].txid@ == id {
        Some(txs[0])
    } else {
        spec_find_tx(txs.skip(1), id)
    }
}

/// Look a block up by hash: the first record whose hash matches.
pub open spec fn spec_find_block(blocks: Seq<BlockRecord>, hash: Seq<u8>) -> Option<BlockRecord>
    decreases blocks.len(),
{
    if blocks.len() == 0 {
        None
    } else if blocks[0].hash@ == hash {
        Some(blocks[0])
    } else {
        spec_find_block(blocks.skip(1), hash)
    }
}

proof fn lemma_find_tx_step(txs: Seq<ConfirmedTransaction>, id: Seq<u8>, i: int)
    requires
        0 <= i < txs.len(),
        txs[i].txid@ != id,
    ensures
        spec_find_tx(txs.skip(i), id) == spec_find_tx(txs.skip(i + 1), id),
{
    assert(txs.skip(i)[0] == txs[i]);
    assert(txs.skip(i).skip(1) =~= txs.skip(i + 1));
}

proof fn lemma_find_block_step(blocks: Seq<BlockRecord>, hash: Seq<u8>, i: int)
    requires
        0 <= i < blocks.len(),
        blocks[i].hash@ != hash,
    ensures
        spec_find_block(blocks.skip(i), hash) == spec_find_block(blocks.skip(i + 1), hash),
{
    assert(blocks.skip(i)[0] == blocks[i]);
    assert(blocks.skip(i).skip(1) =~= blocks.skip(i + 1));
}

/// Find the transaction with the given id in the snapshot, if any.
pub fn find_tx<'a>(txs: &'a Vec<ConfirmedTransaction>, id: &Hash32) -> (r: Option<
    &'a ConfirmedTransaction,
>)
    ensures
        match r {
            Some(tx) => spec_find_tx(txs@, id@) == Some(*tx),
            None => spec_find_tx(txs@, id@) is None,
        },
{
    let n = txs.len();
    let mut i: usize = 0;
    proof {
        assert(txs@.skip(0) =~= txs@);
    }
    while i < n
        invariant
            n == txs@.len(),
            i <= n,
            spec_find_tx(txs@, id@) == spec_find_tx(txs@.skip(i as int), id@),
        decreases n - i,
    {
        if txs[i].txid.matches(id) {
            assert(txs@.skip(i as int)[0] == txs@[i as int]);
            return Some(&txs[i]);
        }
        proof {
            lemma_find_tx_step(txs@, id@, i as int);
        }
        i = i + 1;
    }
    proof {
        assert(txs@.skip(n as int) =~= Seq::<ConfirmedTransaction>::empty());
    }
    None
}

/// Find the block with the given hash in the snapshot, if any.
pub fn find_block<'a>(blocks: &'a Vec<BlockRecord>, hash: &Hash32) -> (r: Option<&'a BlockRecord>)
    ensures
        match r {
            Some(b) => spec_find_block(blocks@, hash@) == Some(*b),
            None => spec_find_block(blocks@, hash@) is None,
        },
{
    let n = blocks.len();
    let mut i: usize = 0;
    proof {
        assert(blocks@.skip(0) =~= blocks@);
    }
    while i < n
        invariant
            n == blocks@.len(),
            i <= n,
            spec_find_block(blocks@, hash@) == spec_find_block(blocks@.skip(i as int), hash@),
        decreases n - i,
    {
        if blocks[i].hash.matches(hash) {
            assert(blocks@.skip(i as int)[0] == blocks@[i as int]);
            return Some(&blocks[i]);
        }
        proof {
            lemma_find_block_step(blocks@, hash@, i as int);
        }
        i = i + 1;
    }
    proof {
        assert(blocks@.skip(n as int) =~= Seq::<BlockRecord>::empty());
    }
    None
}

} // verus!
