use xelite::events::{EntryType, IncomingTransfer, TransactionEntry, WalletEvent};
use xelite::pending::PendingCache;
use xelite::records::{Confirmation, Direction, MessageStatus};
use xelite::session::AppContext;
use xelite::wallet::{BroadcastError, BuiltTransaction, ChatWallet, RecoverOption, WalletError};
use xelite::wallet::{recover_option, table_size_or_default, Transfer};
use xelite::records::TableSize;

const ASSET: &str = "0000000000000000000000000000000000000000000000000000000000000000";
const OTHER_ASSET: &str = "1111111111111111111111111111111111111111111111111111111111111111";

fn wallet() -> ChatWallet<&'static str> {
    ChatWallet::open_wallet(Ok("xet:me".to_string()), ASSET.to_string()).unwrap()
}

fn built(hash: &str, tx: &'static str) -> Result<BuiltTransaction<&'static str>, String> {
    Ok(BuiltTransaction { hash: hash.to_string(), fee: 125, transaction: tx })
}

fn transfer(to: &str, text: Option<&str>) -> Transfer {
    Transfer {
        amount: 0,
        str_address: to.to_string(),
        asset_hash: ASSET.to_string(),
        extra_data: text.map(|t| t.to_string()),
    }
}

fn incoming(hash: &str, from: &str, payloads: Vec<Option<&str>>) -> WalletEvent {
    WalletEvent::NewTransaction(TransactionEntry {
        hash: hash.to_string(),
        timestamp: 1_700_000_000,
        topoheight: 42,
        entry: EntryType::Incoming {
            from: from.to_string(),
            transfers: payloads
                .into_iter()
                .map(|p| IncomingTransfer {
                    asset: ASSET.to_string(),
                    amount: 3,
                    payload: p.map(|t| t.to_string()),
                })
                .collect(),
        },
    })
}

#[test]
fn cache_insert_replace_remove() {
    let mut cache: PendingCache<u32> = PendingCache::new();
    assert!(cache.is_empty());
    cache.insert("aa".to_string(), 1);
    cache.insert("bb".to_string(), 2);
    cache.insert("aa".to_string(), 3);
    let mut hashes = cache.hashes();
    hashes.sort();
    assert_eq!(hashes, vec!["aa".to_string(), "bb".to_string()]);
    assert_eq!(cache.remove(&"aa".to_string()), Some(3));
    assert_eq!(cache.remove(&"aa".to_string()), None);
    assert!(cache.contains(&"bb".to_string()));
    cache.clear();
    assert!(cache.is_empty());
}

#[test]
fn build_summary_and_cache_entry() {
    let mut w = wallet();
    let transfers = vec![transfer("xet:bob", Some("hi"))];
    let s = w.create_transfers_transaction(transfers.clone(), built("h1", "tx1")).unwrap();
    assert_eq!(s.hash, "h1");
    assert_eq!(s.fee, 125);
    assert_eq!(s.transfers, transfers);
    assert_eq!(w.pending_transactions.hashes(), vec!["h1".to_string()]);
}

#[test]
fn failed_build_reports_build_error_and_empties_cache() {
    let mut w = wallet();
    w.create_transfers_transaction(vec![], built("h1", "tx1")).unwrap();
    let r = w.create_transfers_transaction(vec![], Err("insufficient balance".to_string()));
    assert_eq!(r, Err(WalletError::Build("insufficient balance".to_string())));
    assert!(w.pending_transactions.is_empty());
}

#[test]
fn second_build_replaces_first() {
    let mut w = wallet();
    w.create_transfers_transaction(
        vec![transfer("xet:a", None), transfer("xet:b", Some("one"))],
        built("h12", "tx12"),
    )
    .unwrap();
    w.create_transfers_transaction(vec![transfer("xet:c", Some("two"))], built("h3", "tx3"))
        .unwrap();
    assert_eq!(w.pending_transactions.hashes(), vec!["h3".to_string()]);
    assert!(!w.pending_transactions.contains(&"h12".to_string()));
}

#[test]
fn failed_broadcast_keeps_one_entry_for_retry() {
    let mut w = wallet();
    w.is_online = true;
    w.create_transfers_transaction(vec![], built("h1", "tx1")).unwrap();
    let tx = w.broadcast_transaction(&"h1".to_string()).unwrap();
    assert_eq!(tx, "tx1");
    assert!(w.pending_transactions.is_empty());
    let r = w.settle_broadcast("h1".to_string(), tx, Err("rejected".to_string()));
    assert_eq!(r, Err(WalletError::Broadcast(BroadcastError::Rejected("rejected".to_string()))));
    assert_eq!(w.pending_transactions.hashes(), vec!["h1".to_string()]);
    assert!(w.sent_tx_hashes.is_empty());
    assert_eq!(w.broadcast_transaction(&"h1".to_string()), Ok("tx1"));
}

#[test]
fn successful_broadcast_leaves_no_entry() {
    let mut w = wallet();
    w.is_online = true;
    w.create_transfers_transaction(vec![], built("h1", "tx1")).unwrap();
    let tx = w.broadcast_transaction(&"h1".to_string()).unwrap();
    assert_eq!(w.settle_broadcast("h1".to_string(), tx, Ok(())), Ok("tx1"));
    assert!(!w.pending_transactions.contains(&"h1".to_string()));
    assert!(w.pending_transactions.is_empty());
    assert_eq!(w.sent_tx_hashes, vec!["h1".to_string()]);
}

#[test]
fn offline_broadcast_fails_fast_and_keeps_entry() {
    let mut w = wallet();
    w.create_transfers_transaction(vec![], built("h1", "tx1")).unwrap();
    assert_eq!(w.broadcast_transaction(&"h1".to_string()), Err(WalletError::Broadcast(BroadcastError::Offline)));
    assert!(w.pending_transactions.contains(&"h1".to_string()));
}

#[test]
fn broadcast_of_unknown_hash_is_not_found() {
    let mut w = wallet();
    w.is_online = true;
    assert_eq!(w.broadcast_transaction(&"nope".to_string()), Err(WalletError::NotFound));
}

#[test]
fn clear_twice_is_not_found_without_effect() {
    let mut w = wallet();
    w.create_transfers_transaction(vec![], built("h1", "tx1")).unwrap();
    assert_eq!(w.clear_transaction(&"h1".to_string()), Ok("tx1"));
    assert_eq!(w.clear_transaction(&"h1".to_string()), Err(WalletError::NotFound));
    assert!(w.pending_transactions.is_empty());
    assert_eq!(w.balance, 0);
    assert!(w.rx_messages.is_empty());
}

#[test]
fn inbox_counts_payload_events_only() {
    let mut w = wallet();
    let events = vec![
        incoming("t1", "xet:bob", vec![Some("hello")]),
        incoming("t2", "xet:bob", vec![None]),
        WalletEvent::BalanceChanged { asset: ASSET.to_string(), balance: 10 },
        incoming("t3", "xet:carol", vec![Some("yo"), None]),
        incoming("t4", "xet:dave", vec![]),
        WalletEvent::NewTopoHeight(50),
        incoming("t5", "xet:bob", vec![None, Some("second transfer ignored")]),
    ];
    for e in events {
        w.backgroud_daemon(e);
    }
    assert_eq!(w.rx_messages.len(), 2);
    assert_eq!(w.rx_messages[0].message, Some("hello".to_string()));
    assert_eq!(w.rx_messages[1].message, Some("yo".to_string()));
    assert_eq!(w.rx_messages[1].address, "xet:carol");
    assert_eq!(w.topoheight, 50);
    assert_eq!(w.balance, 10);
}

#[test]
fn incoming_message_fields() {
    let mut w = wallet();
    w.backgroud_daemon(incoming("t1", "xet:bob", vec![Some("hello")]));
    let m = &w.rx_messages[0];
    assert_eq!(m.status, MessageStatus::Confirmed);
    assert_eq!(m.direction, Direction::Incoming);
    assert_eq!(m.hash, Some("t1".to_string()));
    assert_eq!(m.timestamp, 1_700_000_000);
    assert_eq!(m.topoheight, 42);
    assert_eq!(m.amount, 3);
    assert_eq!(m.fee, 0);
    assert_eq!(m.asset, ASSET);
}

#[test]
fn balance_change_of_other_asset_is_ignored() {
    let mut w = wallet();
    w.backgroud_daemon(WalletEvent::BalanceChanged { asset: ASSET.to_string(), balance: 500 });
    assert_eq!(w.balance, 500);
    w.backgroud_daemon(WalletEvent::BalanceChanged { asset: OTHER_ASSET.to_string(), balance: 7 });
    assert_eq!(w.balance, 500);
}

#[test]
fn outgoing_entry_confirms_on_next_height() {
    let mut w = wallet();
    w.is_online = true;
    w.create_transfers_transaction(vec![], built("h1", "tx1")).unwrap();
    let tx = w.broadcast_transaction(&"h1".to_string()).unwrap();
    w.settle_broadcast("h1".to_string(), tx, Ok(())).unwrap();
    let out = |hash: &str| {
        WalletEvent::NewTransaction(TransactionEntry {
            hash: hash.to_string(),
            timestamp: 99,
            topoheight: 77,
            entry: EntryType::Outgoing,
        })
    };
    w.backgroud_daemon(out("other"));
    w.backgroud_daemon(out("h1"));
    assert!(w.confirmed_messages.is_empty());
    assert_eq!(w.observed_confirmations.len(), 1);
    w.backgroud_daemon(WalletEvent::NewTopoHeight(78));
    assert!(w.observed_confirmations.is_empty());
    assert_eq!(
        w.confirmed_messages,
        vec![Confirmation { hash: "h1".to_string(), topoheight: 77, timestamp: 99 }]
    );
    assert!(w.rx_messages.is_empty());
}

#[test]
fn get_balance_refreshes_cache() {
    let mut w = wallet();
    assert_eq!(w.get_balance(1234), 1234);
    assert_eq!(w.balance, 1234);
}

#[test]
fn open_wallet_wrong_password_leaves_handle_unset() {
    let mut ctx: AppContext<u8> = AppContext::new();
    let r = ctx.open_wallet(Err("Invalid password".to_string()), ASSET.to_string());
    assert_eq!(r, Err(WalletError::Auth("Invalid password".to_string())));
    assert!(ctx.wallet.is_none());
}

#[test]
fn open_wallet_success_installs_fresh_session() {
    let mut ctx: AppContext<u8> = AppContext::new();
    ctx.open_wallet(Ok("xet:me".to_string()), ASSET.to_string()).unwrap();
    let w = ctx.wallet.as_ref().unwrap();
    assert_eq!(w.address, "xet:me");
    assert!(!w.is_online);
    assert!(w.pending_transactions.is_empty());
}

#[test]
fn restore_failure_is_creation_error() {
    let mut ctx: AppContext<u8> = AppContext::new();
    let r = ctx.restore_wallet(Err("bad seed".to_string()), ASSET.to_string());
    assert_eq!(r, Err(WalletError::Creation("bad seed".to_string())));
    assert!(ctx.wallet.is_none());
    assert!(ChatWallet::<u8>::create_wallet(Ok("xet:new".to_string()), ASSET.to_string()).is_ok());
}

#[test]
fn seed_wins_over_private_key() {
    assert_eq!(
        recover_option(Some("words".to_string()), Some("key".to_string())),
        Some(RecoverOption::Seed("words".to_string()))
    );
    assert_eq!(
        recover_option(None, Some("key".to_string())),
        Some(RecoverOption::PrivateKey("key".to_string()))
    );
    assert_eq!(recover_option(None, None), None);
}

#[test]
fn table_size_defaults_to_low() {
    assert_eq!(table_size_or_default(None), TableSize::L1Low);
    assert_eq!(table_size_or_default(Some(TableSize::L1Full)), TableSize::L1Full);
}

#[test]
fn entry_with_two_payloads_is_rejected() {
    let mut w = wallet();
    w.backgroud_daemon(incoming("t1", "xet:bob", vec![Some("one"), Some("two")]));
    w.backgroud_daemon(incoming("t2", "xet:bob", vec![Some("one"), None, None]));
    assert_eq!(w.rx_messages.len(), 1);
    assert_eq!(w.rx_messages[0].hash, Some("t2".to_string()));
}

#[test]
fn process_events_keeps_delivery_order() {
    let mut w = wallet();
    w.process_events(vec![
        incoming("t1", "xet:bob", vec![Some("a")]),
        WalletEvent::NewTopoHeight(7),
        incoming("t2", "xet:carol", vec![None]),
        incoming("t3", "xet:carol", vec![Some("b")]),
        WalletEvent::BalanceChanged { asset: OTHER_ASSET.to_string(), balance: 1 },
    ]);
    let texts: Vec<Option<String>> = w.rx_messages.iter().map(|m| m.message.clone()).collect();
    assert_eq!(texts, vec![Some("a".to_string()), Some("b".to_string())]);
    assert_eq!(w.topoheight, 7);
    assert_eq!(w.balance, 0);
}
