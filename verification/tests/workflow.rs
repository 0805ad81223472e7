use tx_lineage::bootstrap::{bootstrap_block_count, reward_spendable, COINBASE_MATURITY};
use tx_lineage::payment::{
    accept_send, check_payment_visible, mempool_contains, PaymentError, CONFIRMATION_BLOCKS,
};
use tx_lineage::provision::{make_handle, plan_provision, ProvisionAction, WalletStatus};
use tx_lineage::types::Hash32;

fn hash(b: u8) -> Hash32 {
    Hash32 { bytes: vec![b; 32] }
}

#[test]
fn provisioning_is_idempotent() {
    let name = String::from("Miner");
    // First pass: nothing exists yet, so provisioning creates the wallet.
    let fresh = WalletStatus { exists: false, loaded: false };
    assert_eq!(plan_provision(&fresh), ProvisionAction::Create);
    let first = make_handle("http://127.0.0.1:18443", &name);
    // Second pass: creation left the wallet existing and loaded, so the
    // same call decides there is nothing to do and raises no error.
    let after_create = WalletStatus { exists: true, loaded: true };
    assert_eq!(plan_provision(&after_create), ProvisionAction::AlreadySatisfied);
    let second = make_handle("http://127.0.0.1:18443", &name);
    // Both passes hand back a handle bound to the same wallet.
    assert_eq!(first.name, second.name);
    assert_eq!(first.endpoint, second.endpoint);
    assert_eq!(first.endpoint, "http://127.0.0.1:18443/wallet/Miner");
}

#[test]
fn unloaded_wallet_is_loaded_not_recreated() {
    let on_disk = WalletStatus { exists: true, loaded: false };
    assert_eq!(plan_provision(&on_disk), ProvisionAction::Load);
}

#[test]
fn bootstrap_mines_one_block_past_maturity() {
    assert_eq!(COINBASE_MATURITY, 100);
    assert_eq!(bootstrap_block_count(), 101);
    assert!(reward_spendable(101));
    assert!(!reward_spendable(100));
    assert!(!reward_spendable(0));
}

#[test]
fn one_block_confirms_the_payment() {
    assert_eq!(CONFIRMATION_BLOCKS, 1);
}

#[test]
fn send_must_be_reported_complete() {
    assert!(accept_send(true).is_ok());
    assert_eq!(accept_send(false).unwrap_err(), PaymentError::SendIncomplete);
}

#[test]
fn payment_must_be_visible_in_mempool() {
    let pool = vec![hash(0x01), hash(0x02)];
    assert!(mempool_contains(&pool, &hash(0x02)));
    assert!(!mempool_contains(&pool, &hash(0x03)));
    assert!(check_payment_visible(&pool, &hash(0x01)).is_ok());
    assert_eq!(
        check_payment_visible(&pool, &hash(0x09)).unwrap_err(),
        PaymentError::NotInMempool
    );
    let empty: Vec<Hash32> = vec![];
    assert_eq!(
        check_payment_visible(&empty, &hash(0x01)).unwrap_err(),
        PaymentError::NotInMempool
    );
}
