use tx_lineage::render::render_report;
use tx_lineage::resolve::{resolve, ResolveError};
use tx_lineage::types::{
    Address, BlockRecord, ChainView, ConfirmedTransaction, Hash32, NetworkId, TransactionOutput,
    UtxoRef,
};

fn hash(b: u8) -> Hash32 {
    Hash32 { bytes: vec![b; 32] }
}

fn addr(text: &str) -> Address {
    Address { text: String::from(text), network: NetworkId::Regtest }
}

const COIN: u64 = 100_000_000;

/// A chain where a 50-coin coinbase output funds a payment of 20 coins with
/// 29.9999859 coins change (fee 1410 satoshis), confirmed at height 102.
fn sample_chain() -> ChainView {
    let coinbase = ConfirmedTransaction {
        txid: hash(0xaa),
        inputs: vec![],
        outputs: vec![TransactionOutput {
            value_sats: 50 * COIN,
            address: Some(addr("bcrt1qminerfunding")),
        }],
        block_hash: Some(hash(0x11)),
    };
    let payment = ConfirmedTransaction {
        txid: hash(0xbb),
        inputs: vec![UtxoRef { txid: hash(0xaa), output_index: 0 }],
        outputs: vec![
            TransactionOutput { value_sats: 20 * COIN, address: Some(addr("bcrt1qtrader")) },
            TransactionOutput {
                value_sats: 29 * COIN + 99_998_590,
                address: Some(addr("bcrt1qminerchange")),
            },
        ],
        block_hash: Some(hash(0x22)),
    };
    ChainView {
        transactions: vec![coinbase, payment],
        blocks: vec![
            BlockRecord { hash: hash(0x11), height: 1 },
            BlockRecord { hash: hash(0x22), height: 102 },
        ],
    }
}

#[test]
fn resolves_payment_lineage() {
    let chain = sample_chain();
    let report = resolve(&chain, &hash(0xbb), 20 * COIN, NetworkId::Regtest).unwrap();
    assert_eq!(report.txid.bytes, vec![0xbb; 32]);
    assert_eq!(report.funding_address, "bcrt1qminerfunding");
    assert_eq!(report.funding_sats, 50 * COIN);
    assert_eq!(report.payment_address, "bcrt1qtrader");
    assert_eq!(report.payment_sats, 20 * COIN);
    assert_eq!(report.change_address, "bcrt1qminerchange");
    assert_eq!(report.change_sats, 29 * COIN + 99_998_590);
    assert_eq!(report.fee_sats, 1410);
    assert_eq!(report.block_height, 102);
    assert_eq!(report.block_hash.bytes, vec![0x22; 32]);
}

#[test]
fn funding_equals_payment_plus_change_plus_fee() {
    let chain = sample_chain();
    let report = resolve(&chain, &hash(0xbb), 20 * COIN, NetworkId::Regtest).unwrap();
    assert_eq!(
        report.funding_sats,
        report.payment_sats + report.change_sats + report.fee_sats
    );
}

#[test]
fn payment_output_identified_in_either_position() {
    let mut chain = sample_chain();
    chain.transactions[1].outputs.reverse();
    let report = resolve(&chain, &hash(0xbb), 20 * COIN, NetworkId::Regtest).unwrap();
    assert_eq!(report.payment_sats, 20 * COIN);
    assert_eq!(report.payment_address, "bcrt1qtrader");
    assert_eq!(report.change_address, "bcrt1qminerchange");
}

#[test]
fn unconfirmed_transaction_rejected() {
    let mut chain = sample_chain();
    chain.transactions[1].block_hash = None;
    let r = resolve(&chain, &hash(0xbb), 20 * COIN, NetworkId::Regtest);
    assert_eq!(r.unwrap_err(), ResolveError::Unconfirmed);
}

#[test]
fn unknown_txid_rejected() {
    let chain = sample_chain();
    let r = resolve(&chain, &hash(0xcc), 20 * COIN, NetworkId::Regtest);
    assert_eq!(r.unwrap_err(), ResolveError::TxNotFound);
}

#[test]
fn missing_previous_transaction_rejected() {
    let mut chain = sample_chain();
    chain.transactions.remove(0);
    let r = resolve(&chain, &hash(0xbb), 20 * COIN, NetworkId::Regtest);
    assert_eq!(r.unwrap_err(), ResolveError::MissingPreviousOutput);
}

#[test]
fn out_of_range_previous_output_rejected() {
    let mut chain = sample_chain();
    chain.transactions[1].inputs[0].output_index = 7;
    let r = resolve(&chain, &hash(0xbb), 20 * COIN, NetworkId::Regtest);
    assert_eq!(r.unwrap_err(), ResolveError::MissingPreviousOutput);
}

#[test]
fn transaction_without_inputs_rejected() {
    let chain = sample_chain();
    let r = resolve(&chain, &hash(0xaa), 50 * COIN, NetworkId::Regtest);
    assert_eq!(r.unwrap_err(), ResolveError::MissingPreviousOutput);
}

#[test]
fn funding_output_without_address_rejected() {
    let mut chain = sample_chain();
    chain.transactions[0].outputs[0].address = None;
    let r = resolve(&chain, &hash(0xbb), 20 * COIN, NetworkId::Regtest);
    assert_eq!(r.unwrap_err(), ResolveError::NoAddress);
}

#[test]
fn payment_output_without_address_rejected() {
    let mut chain = sample_chain();
    chain.transactions[1].outputs[0].address = None;
    let r = resolve(&chain, &hash(0xbb), 20 * COIN, NetworkId::Regtest);
    assert_eq!(r.unwrap_err(), ResolveError::NoAddress);
}

#[test]
fn wrong_network_address_rejected() {
    let mut chain = sample_chain();
    let wrong = Address { text: String::from("tb1qelsewhere"), network: NetworkId::Testnet };
    chain.transactions[1].outputs[0].address = Some(wrong);
    let r = resolve(&chain, &hash(0xbb), 20 * COIN, NetworkId::Regtest);
    assert_eq!(r.unwrap_err(), ResolveError::NetworkMismatch);
}

#[test]
fn equal_valued_outputs_ambiguous() {
    let mut chain = sample_chain();
    chain.transactions[1].outputs[0].value_sats = 10 * COIN;
    chain.transactions[1].outputs[1].value_sats = 10 * COIN;
    let r = resolve(&chain, &hash(0xbb), 10 * COIN, NetworkId::Regtest);
    assert_eq!(r.unwrap_err(), ResolveError::AmbiguousOutput);
}

#[test]
fn no_output_matching_intended_amount_ambiguous() {
    let chain = sample_chain();
    let r = resolve(&chain, &hash(0xbb), 21 * COIN, NetworkId::Regtest);
    assert_eq!(r.unwrap_err(), ResolveError::AmbiguousOutput);
}

#[test]
fn more_than_two_outputs_ambiguous() {
    let mut chain = sample_chain();
    let extra = TransactionOutput { value_sats: COIN, address: Some(addr("bcrt1qextra")) };
    chain.transactions[1].outputs.push(extra);
    let r = resolve(&chain, &hash(0xbb), 20 * COIN, NetworkId::Regtest);
    assert_eq!(r.unwrap_err(), ResolveError::AmbiguousOutput);
}

#[test]
fn outputs_exceeding_funding_rejected() {
    let mut chain = sample_chain();
    chain.transactions[0].outputs[0].value_sats = 20 * COIN;
    let r = resolve(&chain, &hash(0xbb), 20 * COIN, NetworkId::Regtest);
    assert_eq!(r.unwrap_err(), ResolveError::NegativeFee);
}

#[test]
fn missing_block_metadata_rejected() {
    let mut chain = sample_chain();
    chain.blocks.clear();
    let r = resolve(&chain, &hash(0xbb), 20 * COIN, NetworkId::Regtest);
    assert_eq!(r.unwrap_err(), ResolveError::BlockNotFound);
}

#[test]
fn resolution_is_pure_given_fixed_chain_state() {
    let chain = sample_chain();
    let first = resolve(&chain, &hash(0xbb), 20 * COIN, NetworkId::Regtest).unwrap();
    let second = resolve(&chain, &hash(0xbb), 20 * COIN, NetworkId::Regtest).unwrap();
    let lines_first = render_report(&first);
    let lines_second = render_report(&second);
    assert_eq!(lines_first, lines_second);
}
