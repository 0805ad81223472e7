//! Transaction lineage resolution: given a chain snapshot, a transaction id
//! and the intended payment amount, reconstruct which output of which
//! previous transaction funded the transaction, which of its two outputs
//! paid the counterparty, which is change, the fee, and the confirming
//! block — or fail with the precise reason.

use vstd::prelude::*;
use crate::types::{
    ChainView, ConfirmedTransaction, Hash32, NetworkId, TransactionOutput, MAX_MONEY_SATS,
    spec_find_block, spec_find_tx, find_block, find_tx,
};

verus! {

/// How far resolution walks backward through the transaction graph: one
/// hop, from the target's first input to the output that funded it. This
/// is a fixed policy, not an implicit recursion depth.
pub const FUNDING_TRAVERSAL_HOPS: u64 = 1;

/// Why lineage resolution fails. Every failure is fatal: resolution is
/// all-or-nothing and emits no partial result.
#[derive(Clone, Copy, PartialEq, Eq, Structural, Debug)]
pub enum ResolveError {
    /// The target transaction id is not in the snapshot.
    TxNotFound,
    /// The target transaction has no confirming block.
    Unconfirmed,
    /// The first input's previous transaction or referenced output cannot
    /// be fetched (also raised when the transaction has no inputs).
    MissingPreviousOutput,
    /// An output needed for the report has no decodable address.
    NoAddress,
    /// A decoded address belongs to a different network than the one the
    /// workflow operates on.
    NetworkMismatch,
    /// The two-output payment/change split cannot be classified.
    AmbiguousOutput,
    /// The snapshot's amounts break the funding invariant: the target's
    /// outputs together exceed the funding output's value. Consensus-valid
    /// chain data never does this.
    NegativeFee,
    /// The confirming block's metadata is not in the snapshot.
    BlockNotFound,
}

/// Which of the two outputs is the payment: the one whose value equals the
/// intended payment amount. If both or neither match, the split is
/// ambiguous and resolution must fail rather than pick one.
#[derive(Clone, Copy, PartialEq, Eq, Structural, Debug)]
pub enum SplitClassification {
    /// The first output is the payment, the second the change.
    PaymentFirst,
    /// The second output is the payment, the first the change.
    PaymentSecond,
    /// Both or neither output matches the intended amount.
    Ambiguous,
}

/// Classify a two-output split by value against the intended payment
/// amount.
pub open spec fn spec_classify(v0: u64, v1: u64, expected: u64) -> SplitClassification {
    if v0 == expected && v1 != expected {
        SplitClassification::PaymentFirst
    } else if v1 == expected && v0 != expected {
        SplitClassification::PaymentSecond
    } else {
        SplitClassification::Ambiguous
    }
}

/// Exec mirror of `spec_classify`.
pub fn classify_outputs(v0: u64, v1: u64, expected: u64) -> (c: SplitClassification)
    ensures
        c == spec_classify(v0, v1, expected),
{
    if v0 == expected && v1 != expected {
        SplitClassification::PaymentFirst
    } else if v1 == expected && v0 != expected {
        SplitClassification::PaymentSecond
    } else {
        SplitClassification::Ambiguous
    }
}

/// Equal-valued outputs can never be classified: whatever the intended
/// amount, the split is ambiguous, never a silent positional pick.
pub proof fn lemma_classify_equal_is_ambiguous(v: u64, expected: u64)
    ensures
        spec_classify(v, v, expected) == SplitClassification::Ambiguous,
{
}

/// The resolved lineage, as mathematical values: byte sequences for
/// identifiers, character sequences for addresses, integers for amounts.
/// `fee_sats` is the fee's magnitude; the report renders it negated.
pub ghost struct LineageModel {
    pub txid: Seq<u8>,
    pub funding_address: Seq<char>,
    pub funding_sats: int,
    pub payment_address: Seq<char>,
    pub payment_sats: int,
    pub change_address: Seq<char>,
    pub change_sats: int,
    pub fee_sats: int,
    pub block_height: int,
    pub block_hash: Seq<u8>,
}

/// The resolved lineage of one confirmed transaction. Constructed once per
/// resolution and immutable afterwards.
#[derive(Clone, Debug)]
pub struct LineageReport {
    pub txid: Hash32,
    pub funding_address: String,
    pub funding_sats: u64,
    pub payment_address: String,
    pub payment_sats: u64,
    pub change_address: String,
    pub change_sats: u64,
    pub fee_sats: u64,
    pub block_height: u64,
    pub block_hash: Hash32,
}

impl View for LineageReport {
    type V = LineageModel;

    open spec fn view(&self) -> LineageModel {
        LineageModel {
            txid: self.txid@,
            funding_address: self.funding_address@,
            funding_sats: self.funding_sats as int,
            payment_address: self.payment_address@,
            payment_sats: self.payment_sats as int,
            change_address: self.change_address@,
            change_sats: self.change_sats as int,
            fee_sats: self.fee_sats as int,
            block_height: self.block_height as int,
            block_hash: self.block_hash@,
        }
    }
}

/// The address an output pays to, as resolution needs it: an error when the
/// script has no decodable address or the address is tagged with the wrong
/// network.
pub open spec fn spec_output_address(out: TransactionOutput, network: NetworkId) -> Result<
    Seq<char>,
    ResolveError,
> {
    match out.address {
        None => Err(ResolveError::NoAddress),
        Some(a) => if a.network != network {
            Err(ResolveError::NetworkMismatch)
        } else {
            Ok(a.text@)
        },
    }
}

/// What resolution returns for a given snapshot, transaction id, intended
/// payment amount and operating network. The steps, in order: look the
/// target up; require a confirming block; walk one hop backward through the
/// first input to the funding output; classify the two outputs by value;
/// decode the funding, payment and change addresses; compute the fee as
/// funding minus total output; look the confirming block up.
pub open spec fn spec_resolve(
    chain: ChainView,
    id: Seq<u8>,
    expected: u64,
    network: NetworkId,
) -> Result<LineageModel, ResolveError> {
    match spec_find_tx(chain.transactions@, id) {
        None => Err(ResolveError::TxNotFound),
        Some(tx) => match tx.block_hash {
            None => Err(ResolveError::Unconfirmed),
            Some(confirming_hash) => if tx.inputs@.len() == 0 {
                Err(ResolveError::MissingPreviousOutput)
            } else {
                let vin = tx.inputs@[0];
                match spec_find_tx(chain.transactions@, vin.txid@) {
                    None => Err(ResolveError::MissingPreviousOutput),
                    Some(prev) => if vin.output_index >= prev.outputs@.len() {
                        Err(ResolveError::MissingPreviousOutput)
                    } else {
                        let funding = prev.outputs@[vin.output_index as int];
                        if tx.outputs@.len() != 2 {
                            Err(ResolveError::AmbiguousOutput)
                        } else {
                            let out0 = tx.outputs@[0];
                            let out1 = tx.outputs@[1];
                            match spec_classify(out0.value_sats, out1.value_sats, expected) {
                                SplitClassification::Ambiguous => Err(
                                    ResolveError::AmbiguousOutput,
                                ),
                                split => {
                                    let payment = if split
                                        == SplitClassification::PaymentFirst {
                                        out0
                                    } else {
                                        out1
                                    };
                                    let change = if split == SplitClassification::PaymentFirst {
                                        out1
                                    } else {
                                        out0
                                    };
                                    match spec_output_address(funding, network) {
                                        Err(e) => Err(e),
                                        Ok(funding_address) => match spec_output_address(
                                            payment,
                                            network,
                                        ) {
                                            Err(e) => Err(e),
                                            Ok(payment_address) => match spec_output_address(
                                                change,
                                                network,
                                            ) {
                                                Err(e) => Err(e),
                                                Ok(change_address) => if (funding.value_sats
                                                    as int) < payment.value_sats
                                                    + change.value_sats {
                                                    Err(ResolveError::NegativeFee)
                                                } else {
                                                    match spec_find_block(
                                                    chain.blocks@,
                                                    confirming_hash@,
                                                ) {
                                                    None => Err(ResolveError::BlockNotFound),
                                                    Some(block) => Ok(
                                                        LineageModel {
                                                            txid: tx.txid@,
                                                            funding_address,
                                                            funding_sats: funding.value_sats
                                                                as int,
                                                            payment_address,
                                                            payment_sats: payment.value_sats
                                                                as int,
                                                            change_address,
                                                            change_sats: change.value_sats as int,
                                                            fee_sats: funding.value_sats
                                                                - payment.value_sats
                                                                - change.value_sats,
                                                            block_height: block.height as int,
                                                            block_hash: block.hash@,
                                                        },
                                                    ),
                                                }
                                                },
                                            },
                                        },
                                    }
                                },
                            }
                        }
                    },
                }
            },
        },
    }
}

/// Decode one output's address for the report, exactly as
/// `spec_output_address` states.
fn output_address(out: &TransactionOutput, network: NetworkId) -> (r: Result<
    String,
    ResolveError,
>)
    ensures
        match r {
            Ok(s) => spec_output_address(*out, network) == Ok::<Seq<char>, ResolveError>(s@),
            Err(e) => spec_output_address(*out, network) == Err::<Seq<char>, ResolveError>(e),
        },
{
    match &out.address {
        None => Err(ResolveError::NoAddress),
        Some(a) => {
            if a.network != network {
                Err(ResolveError::NetworkMismatch)
            } else {
                Ok(a.text.clone())
            }
        },
    }
}

proof fn lemma_find_tx_found(txs: Seq<ConfirmedTransaction>, id: Seq<u8>)
    requires
        spec_find_tx(txs, id) is Some,
    ensures
        txs.contains(spec_find_tx(txs, id)->Some_0),
        (spec_find_tx(txs, id)->Some_0).txid@ == id,
    decreases txs.len(),
{
    if txs[0].txid@ == id {
        assert(txs.contains(txs[0]));
    } else {
        lemma_find_tx_found(txs.skip(1), id);
        let t = spec_find_tx(txs.skip(1), id)->Some_0;
        let j = choose|j: int| 0 <= j < txs.skip(1).len() && txs.skip(1)[j] == t;
        assert(txs[j + 1] == t);
        assert(txs.contains(t));
    }
}

/// A transaction found in a well-formed snapshot is itself well-formed.
proof fn lemma_found_tx_wf(chain: ChainView, id: Seq<u8>)
    requires
        chain.wf(),
        spec_find_tx(chain.transactions@, id) is Some,
    ensures
        (spec_find_tx(chain.transactions@, id)->Some_0).wf(),
        (spec_find_tx(chain.transactions@, id)->Some_0).txid@ == id,
{
    lemma_find_tx_found(chain.transactions@, id);
    let t = spec_find_tx(chain.transactions@, id)->Some_0;
    let i = choose|i: int|
        0 <= i < chain.transactions@.len() && chain.transactions@[i] == t;
    assert(chain.transactions@[i].wf());
}

/// Resolve the lineage of the transaction with the given id against a
/// snapshot of the chain, for the given intended payment amount on the
/// given network. The result is exactly what `spec_resolve` states:
/// resolution is pure, all-or-nothing, and each failure names the invariant
/// that broke. The snapshot must be well-formed.
pub fn resolve(
    chain: &ChainView,
    txid: &Hash32,
    expected_payment_sats: u64,
    network: NetworkId,
) -> (r: Result<LineageReport, ResolveError>)
    requires
        chain.wf(),
    ensures
        match r {
            Ok(rep) => spec_resolve(*chain, txid@, expected_payment_sats, network) == Ok::<
                LineageModel,
                ResolveError,
            >(rep@),
            Err(e) => spec_resolve(*chain, txid@, expected_payment_sats, network) == Err::<
                LineageModel,
                ResolveError,
            >(e),
        },
{
    let tx = match find_tx(&chain.transactions, txid) {
        None => {
            return Err(ResolveError::TxNotFound);
        },
        Some(t) => t,
    };
    proof {
        lemma_found_tx_wf(*chain, txid@);
    }
    let confirming_hash = match &tx.block_hash {
        None => {
            return Err(ResolveError::Unconfirmed);
        },
        Some(h) => h,
    };
    if tx.inputs.len() == 0 {
        return Err(ResolveError::MissingPreviousOutput);
    }
    let vin = &tx.inputs[0];
    let prev = match find_tx(&chain.transactions, &vin.txid) {
        None => {
            return Err(ResolveError::MissingPreviousOutput);
        },
        Some(p) => p,
    };
    proof {
        lemma_found_tx_wf(*chain, vin.txid@);
    }
    if vin.output_index >= prev.outputs.len() {
        return Err(ResolveError::MissingPreviousOutput);
    }
    let funding = &prev.outputs[vin.output_index];
    if tx.outputs.len() != 2 {
        return Err(ResolveError::AmbiguousOutput);
    }
    let out0 = &tx.outputs[0];
    let out1 = &tx.outputs[1];
    let split = classify_outputs(out0.value_sats, out1.value_sats, expected_payment_sats);
    let (payment, change) = match split {
        SplitClassification::Ambiguous => {
            return Err(ResolveError::AmbiguousOutput);
        },
        SplitClassification::PaymentFirst => (out0, out1),
        SplitClassification::PaymentSecond => (out1, out0),
    };
    let funding_address = match output_address(funding, network) {
        Err(e) => {
            return Err(e);
        },
        Ok(s) => s,
    };
    let payment_address = match output_address(payment, network) {
        Err(e) => {
            return Err(e);
        },
        Ok(s) => s,
    };
    let change_address = match output_address(change, network) {
        Err(e) => {
            return Err(e);
        },
        Ok(s) => s,
    };
    assert(payment.value_sats <= MAX_MONEY_SATS);
    assert(change.value_sats <= MAX_MONEY_SATS);
    let total_sats = payment.value_sats + change.value_sats;
    if funding.value_sats < total_sats {
        return Err(ResolveError::NegativeFee);
    }
    let block = match find_block(&chain.blocks, confirming_hash) {
        None => {
            return Err(ResolveError::BlockNotFound);
        },
        Some(b) => b,
    };
    let fee_sats = funding.value_sats - total_sats;
    let report = LineageReport {
        txid: tx.txid.duplicate(),
        funding_address,
        funding_sats: funding.value_sats,
        payment_address,
        payment_sats: payment.value_sats,
        change_address,
        change_sats: change.value_sats,
        fee_sats,
        block_height: block.height,
        block_hash: block.hash.duplicate(),
    };
    Ok(report)
}

/// For every transaction with exactly one resolvable funding input and two
/// classified outputs — that is, for every resolution that succeeds — the
/// funding amount equals the payment amount plus the change amount plus
/// the fee magnitude, exactly, in satoshis; and the payment output's value
/// is exactly the intended payment amount.
pub proof fn lemma_funding_balance(
    chain: ChainView,
    id: Seq<u8>,
    expected: u64,
    network: NetworkId,
)
    requires
        spec_resolve(chain, id, expected, network) is Ok,
    ensures
        ({
            let m = spec_resolve(chain, id, expected, network)->Ok_0;
            &&& m.funding_sats == m.payment_sats + m.change_sats + m.fee_sats
            &&& m.payment_sats == expected
        }),
{
}

/// A transaction without a confirming block is never resolved: the result
/// is `Unconfirmed`, whatever the rest of the snapshot holds.
pub proof fn lemma_unconfirmed_rejected(
    chain: ChainView,
    id: Seq<u8>,
    expected: u64,
    network: NetworkId,
)
    requires
        spec_find_tx(chain.transactions@, id) matches Some(tx) && tx.block_hash is None,
    ensures
        spec_resolve(chain, id, expected, network) == Err::<LineageModel, ResolveError>(
            ResolveError::Unconfirmed,
        ),
{
}

/// When the funding output — the previous transaction's output the first
/// input references — has no decodable address, resolution fails with
/// `NoAddress` (given it got as far as decoding: the target is confirmed,
/// the funding output was fetched, and the two outputs were classified).
pub proof fn lemma_missing_funding_address_rejected(
    chain: ChainView,
    id: Seq<u8>,
    expected: u64,
    network: NetworkId,
)
    requires
        ({
            &&& spec_find_tx(chain.transactions@, id) matches Some(tx)
            &&& tx.block_hash is Some
            &&& tx.inputs@.len() > 0
            &&& spec_find_tx(chain.transactions@, tx.inputs@[0].txid@) matches Some(prev)
            &&& tx.inputs@[0].output_index < prev.outputs@.len()
            &&& prev.outputs@[tx.inputs@[0].output_index as int].address is None
            &&& tx.outputs@.len() == 2
            &&& spec_classify(tx.outputs@[0].value_sats, tx.outputs@[1].value_sats, expected)
                != SplitClassification::Ambiguous
        }),
    ensures
        spec_resolve(chain, id, expected, network) == Err::<LineageModel, ResolveError>(
            ResolveError::NoAddress,
        ),
{
}

/// When the target transaction's two outputs carry equal values, the
/// payment/change split cannot be classified: a resolution that got as far
/// as classification fails with `AmbiguousOutput`, never a silent
/// positional pick.
pub proof fn lemma_equal_outputs_rejected(
    chain: ChainView,
    id: Seq<u8>,
    expected: u64,
    network: NetworkId,
)
    requires
        ({
            &&& spec_find_tx(chain.transactions@, id) matches Some(tx)
            &&& tx.block_hash is Some
            &&& tx.inputs@.len() > 0
            &&& spec_find_tx(chain.transactions@, tx.inputs@[0].txid@) matches Some(prev)
            &&& tx.inputs@[0].output_index < prev.outputs@.len()
            &&& tx.outputs@.len() == 2
            &&& tx.outputs@[0].value_sats == tx.outputs@[1].value_sats
        }),
    ensures
        spec_resolve(chain, id, expected, network) == Err::<LineageModel, ResolveError>(
            ResolveError::AmbiguousOutput,
        ),
{
    let tx = spec_find_tx(chain.transactions@, id)->Some_0;
    lemma_classify_equal_is_ambiguous(tx.outputs@[0].value_sats, expected);
}

/// Resolution is pure: the result is a function of the snapshot, the
/// transaction id, the intended amount and the network alone, so running
/// it twice over the same confirmed chain state yields identical values.
pub proof fn lemma_resolve_deterministic(
    chain: ChainView,
    id: Seq<u8>,
    expected: u64,
    network: NetworkId,
    r1: Result<LineageModel, ResolveError>,
    r2: Result<LineageModel, ResolveError>,
)
    requires
        r1 == spec_resolve(chain, id, expected, network),
        r2 == spec_resolve(chain, id, expected, network),
    ensures
        r1 == r2,
{
}

} // verus!
