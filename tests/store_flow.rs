use xelite::events::{process_incoming_tx, EntryType, IncomingTransfer};
use xelite::events::{TransactionEntry, WalletEvent};
use xelite::records::{Confirmation, DbContact, DbMessage, Direction, MessageStatus};
use xelite::records::MnemonicLanguage;
use xelite::session::{AppContext, SeedAccess};
use xelite::store::{ChatStore, ContactError, RemoveOutcome};
use xelite::sync::{apply_confirmations, mark_sent, message_transfers, outgoing_message};
use xelite::sync::{reconcile_inbox, DEV_FEE_ADDRESS, DEV_FEE_AMOUNT};
use xelite::wallet::{BuiltTransaction, ChatWallet, SummaryTransaction};

const OWN: &str = "xet:me";
const ASSET: &str = "0000000000000000000000000000000000000000000000000000000000000000";

fn contact(name: &str, address: &str) -> DbContact {
    DbContact { name: name.to_string(), address: address.to_string() }
}

fn own() -> String {
    OWN.to_string()
}

fn received(from: &str, text: &str, hash: &str) -> DbMessage {
    DbMessage {
        status: MessageStatus::Confirmed,
        direction: Direction::Incoming,
        address: from.to_string(),
        hash: Some(hash.to_string()),
        fee: 0,
        timestamp: 5,
        topoheight: 9,
        asset: ASSET.to_string(),
        amount: 0,
        message: Some(text.to_string()),
    }
}

#[test]
fn add_contact_twice_is_duplicate() {
    let mut store = ChatStore::new();
    assert_eq!(store.db_add_contact(contact("bob", "xet:bob"), &own()), Ok(()));
    assert_eq!(
        store.db_add_contact(contact("bob", "xet:bob"), &own()),
        Err(ContactError::DuplicateName)
    );
    assert_eq!(store.db_read_contacts(), vec![contact("bob", "xet:bob")]);
}

#[test]
fn add_contact_validation_order() {
    let mut store = ChatStore::new();
    store.db_add_contact(contact("bob", "xet:bob"), &own()).unwrap();
    assert_eq!(store.db_add_contact(contact("", "xet:x"), &own()), Err(ContactError::EmptyField));
    assert_eq!(store.db_add_contact(contact("x", ""), &own()), Err(ContactError::EmptyField));
    assert_eq!(store.db_add_contact(contact("", OWN), &own()), Err(ContactError::EmptyField));
    assert_eq!(store.db_add_contact(contact("me", OWN), &own()), Err(ContactError::SelfAddress));
    assert_eq!(
        store.db_add_contact(contact("bob", "xet:other"), &own()),
        Err(ContactError::DuplicateName)
    );
    assert_eq!(
        store.db_add_contact(contact("robert", "xet:bob"), &own()),
        Err(ContactError::DuplicateAddress)
    );
    assert_eq!(store.db_read_contacts().len(), 1);
    assert_eq!(store.db_add_contact(contact("carol", "xet:carol"), &own()), Ok(()));
    assert_eq!(store.db_read_contacts().len(), 2);
}

#[test]
fn remove_contact_cascades_to_messages() {
    let mut store = ChatStore::new();
    store.db_add_contact(contact("bob", "xet:bob"), &own()).unwrap();
    store.db_add_contact(contact("carol", "xet:carol"), &own()).unwrap();
    store.db_store_init_message(received("xet:bob", "one", "a1"), &own());
    store.db_store_init_message(received("xet:carol", "two", "a2"), &own());
    store.db_store_init_message(received("xet:bob", "three", "a3"), &own());
    assert_eq!(store.db_read_messages(&"xet:bob".to_string()).len(), 2);
    let out = store.db_remove_contact(&"xet:bob".to_string());
    assert_eq!(out, RemoveOutcome { messages_deleted: 2, contact_deleted: true });
    assert!(store.db_read_messages(&"xet:bob".to_string()).is_empty());
    assert_eq!(store.db_read_messages(&"xet:carol".to_string()).len(), 1);
    assert_eq!(store.db_read_contacts(), vec![contact("carol", "xet:carol")]);
}

#[test]
fn remove_unknown_contact_reports_nothing_deleted() {
    let mut store = ChatStore::new();
    let out = store.db_remove_contact(&"xet:ghost".to_string());
    assert_eq!(out, RemoveOutcome { messages_deleted: 0, contact_deleted: false });
}

#[test]
fn read_messages_keeps_store_order() {
    let mut store = ChatStore::new();
    store.db_store_init_message(received("xet:bob", "first", "a1"), &own());
    store.db_store_init_message(received("xet:bob", "second", "a2"), &own());
    let texts: Vec<Option<String>> =
        store.db_read_messages(&"xet:bob".to_string()).into_iter().map(|m| m.message).collect();
    assert_eq!(texts, vec![Some("first".to_string()), Some("second".to_string())]);
}

#[test]
fn unknown_sender_gets_a_contact() {
    let mut store = ChatStore::new();
    store.db_store_init_message(received("xet:stranger", "hi", "a1"), &own());
    assert_eq!(store.db_read_contacts(), vec![contact("xet:stranger", "xet:stranger")]);
    store.db_store_init_message(received("xet:stranger", "again", "a2"), &own());
    assert_eq!(store.db_read_contacts().len(), 1);
    store.db_store_init_message(received(OWN, "to myself", "a3"), &own());
    assert_eq!(store.db_read_contacts().len(), 1);
    assert_eq!(store.db_read_messages(&OWN.to_string()).len(), 1);
}

#[test]
fn known_sender_keeps_its_name() {
    let mut store = ChatStore::new();
    store.db_add_contact(contact("bob", "xet:bob"), &own()).unwrap();
    store.db_store_init_message(received("xet:bob", "hi", "a1"), &own());
    assert_eq!(store.db_read_contacts(), vec![contact("bob", "xet:bob")]);
}

#[test]
fn message_lifecycle_changes_only_stage_fields() {
    let mut store = ChatStore::new();
    store.db_add_contact(contact("bob", "xet:bob"), &own()).unwrap();
    let pending = outgoing_message("xet:bob".to_string(), 40, "hello".to_string(), ASSET.to_string());
    store.db_store_init_message(pending.clone(), &own());
    let stage0 = store.db_read_messages(&"xet:bob".to_string())[0].clone();
    assert_eq!(stage0, pending);
    assert_eq!(stage0.status, MessageStatus::Pending);
    assert_eq!(stage0.hash, None);

    let summary = SummaryTransaction { hash: "h1".to_string(), fee: 2500, transfers: vec![] };
    let sent = mark_sent(pending.clone(), &summary);
    assert_eq!(store.db_update_status_fee(&sent), 1);
    let stage1 = store.db_read_messages(&"xet:bob".to_string())[0].clone();
    assert_eq!(stage1.status, MessageStatus::Sent);
    assert_eq!(stage1.hash, Some("h1".to_string()));
    assert_eq!(stage1.fee, 2500);
    assert_eq!(
        DbMessage { status: stage0.status, hash: None, fee: stage0.fee, ..stage1.clone() },
        stage0
    );

    let c = Confirmation { hash: "h1".to_string(), topoheight: 44, timestamp: 1_700_000_100 };
    assert_eq!(store.db_update_status_topoheight(&c), 1);
    let stage2 = store.db_read_messages(&"xet:bob".to_string())[0].clone();
    assert_eq!(stage2.status, MessageStatus::Confirmed);
    assert_eq!(stage2.topoheight, 44);
    assert_eq!(stage2.timestamp, 1_700_000_100);
    assert_eq!(
        DbMessage {
            status: stage1.status,
            topoheight: stage1.topoheight,
            timestamp: stage1.timestamp,
            ..stage2.clone()
        },
        stage1
    );
}

#[test]
fn sent_update_needs_matching_natural_key() {
    let mut store = ChatStore::new();
    let pending = outgoing_message("xet:bob".to_string(), 40, "hello".to_string(), ASSET.to_string());
    store.db_store_init_message(pending.clone(), &own());
    let summary = SummaryTransaction { hash: "h1".to_string(), fee: 1, transfers: vec![] };
    let other_height = DbMessage { topoheight: 41, ..mark_sent(pending.clone(), &summary) };
    assert_eq!(store.db_update_status_fee(&other_height), 0);
    let other_text = DbMessage { message: Some("bye".to_string()), ..mark_sent(pending, &summary) };
    assert_eq!(store.db_update_status_fee(&other_text), 0);
    let confirm = Confirmation { hash: "h1".to_string(), topoheight: 50, timestamp: 3 };
    assert_eq!(store.db_update_status_topoheight(&confirm), 0);
    assert_eq!(store.db_read_messages(&"xet:bob".to_string())[0].status, MessageStatus::Pending);
}

#[test]
fn reconcile_inbox_keeps_arrival_order() {
    let mut store = ChatStore::new();
    let mut w: ChatWallet<u8> = ChatWallet::open_wallet(Ok(own()), ASSET.to_string()).unwrap();
    w.rx_messages.push(received("xet:bob", "first", "a1"));
    w.rx_messages.push(received("xet:carol", "second", "a2"));
    w.rx_messages.push(received("xet:bob", "third", "a3"));
    reconcile_inbox(&mut store, &mut w);
    assert!(w.rx_messages.is_empty());
    let bob: Vec<Option<String>> =
        store.db_read_messages(&"xet:bob".to_string()).into_iter().map(|m| m.message).collect();
    assert_eq!(bob, vec![Some("first".to_string()), Some("third".to_string())]);
    assert_eq!(
        store.db_read_contacts(),
        vec![contact("xet:bob", "xet:bob"), contact("xet:carol", "xet:carol")]
    );
}

#[test]
fn confirmations_reach_the_store() {
    let mut ctx: AppContext<u8> = AppContext::new();
    ctx.open_wallet(Ok(own()), ASSET.to_string()).unwrap();
    ctx.store.db_add_contact(contact("bob", "xet:bob"), &own()).unwrap();
    let (row, transfers) = ctx.begin_send("xet:bob".to_string(), 12, "ping".to_string()).unwrap();
    assert_eq!(transfers.len(), 2);
    let w = ctx.wallet.as_mut().unwrap();
    w.is_online = true;
    let summary = w
        .create_transfers_transaction(
            transfers,
            Ok(BuiltTransaction { hash: "h9".to_string(), fee: 30, transaction: 1u8 }),
        )
        .unwrap();
    let tx = w.broadcast_transaction(&summary.hash).unwrap();
    w.settle_broadcast(summary.hash.clone(), tx, Ok(())).unwrap();
    let sent = ctx.finish_send(row, &summary);
    assert_eq!(sent.status, MessageStatus::Sent);

    let w = ctx.wallet.as_mut().unwrap();
    w.backgroud_daemon(WalletEvent::NewTransaction(TransactionEntry {
        hash: "h9".to_string(),
        timestamp: 777,
        topoheight: 13,
        entry: EntryType::Outgoing,
    }));
    w.backgroud_daemon(WalletEvent::NewTopoHeight(14));
    let AppContext { wallet, store } = &mut ctx;
    apply_confirmations(store, wallet.as_mut().unwrap());
    let m = store.db_read_messages(&"xet:bob".to_string())[0].clone();
    assert_eq!(m.status, MessageStatus::Confirmed);
    assert_eq!(m.topoheight, 13);
    assert_eq!(m.timestamp, 777);
    assert_eq!(m.fee, 30);
    assert_eq!(m.hash, Some("h9".to_string()));
    assert!(wallet.as_ref().unwrap().confirmed_messages.is_empty());
}

#[test]
fn begin_send_without_wallet_does_nothing() {
    let mut ctx: AppContext<u8> = AppContext::new();
    assert!(ctx.begin_send("xet:bob".to_string(), 1, "x".to_string()).is_none());
    assert!(ctx.store.db_read_messages(&"xet:bob".to_string()).is_empty());
}

#[test]
fn begin_send_stores_pending_row_first() {
    let mut ctx: AppContext<u8> = AppContext::new();
    ctx.open_wallet(Ok(own()), ASSET.to_string()).unwrap();
    let (row, _) = ctx.begin_send("xet:bob".to_string(), 8, "x".to_string()).unwrap();
    assert_eq!(row.status, MessageStatus::Pending);
    assert_eq!(row.direction, Direction::Outgoing);
    assert_eq!(row.asset, ASSET);
    assert_eq!(ctx.store.db_read_messages(&"xet:bob".to_string()), vec![row]);
}

#[test]
fn message_transfers_put_fee_first() {
    let t = message_transfers(&"xet:bob".to_string(), &"hey".to_string(), &ASSET.to_string());
    assert_eq!(t.len(), 2);
    assert_eq!(t[0].amount, DEV_FEE_AMOUNT);
    assert_eq!(t[0].amount, 1_000_000);
    assert_eq!(t[0].str_address, DEV_FEE_ADDRESS);
    assert_eq!(t[0].extra_data, None);
    assert_eq!(t[1].amount, 0);
    assert_eq!(t[1].str_address, "xet:bob");
    assert_eq!(t[1].extra_data, Some("hey".to_string()));
}

#[test]
fn seed_access_checks_password_then_wallet() {
    let mut ctx: AppContext<u8> = AppContext::new();
    let stored = "secret".to_string();
    assert_eq!(ctx.wallet_get_seed(&"wrong".to_string(), &stored), SeedAccess::WrongPassword);
    assert_eq!(ctx.wallet_get_seed(&stored, &stored), SeedAccess::WalletNotInitialized);
    ctx.open_wallet(Ok(own()), ASSET.to_string()).unwrap();
    assert_eq!(ctx.wallet_get_seed(&"wrong".to_string(), &stored), SeedAccess::WrongPassword);
    assert_eq!(ctx.wallet_get_seed(&stored, &stored), SeedAccess::Granted);
}

#[test]
fn rx_extra_data_collects_payloads_from_contact() {
    let entry = |from: &str, topoheight: u64, payloads: Vec<Option<&str>>| TransactionEntry {
        hash: "h".to_string(),
        timestamp: 0,
        topoheight,
        entry: EntryType::Incoming {
            from: from.to_string(),
            transfers: payloads
                .into_iter()
                .map(|p| IncomingTransfer {
                    asset: ASSET.to_string(),
                    amount: 0,
                    payload: p.map(|s| s.to_string()),
                })
                .collect(),
        },
    };
    let entries = vec![
        entry("xet:bob", 5, vec![Some("old")]),
        entry("xet:bob", 10, vec![Some("a"), None, Some("b")]),
        entry("xet:carol", 11, vec![Some("c")]),
        TransactionEntry { hash: "o".to_string(), timestamp: 0, topoheight: 12, entry: EntryType::Outgoing },
        entry("xet:bob", 13, vec![Some("d")]),
    ];
    let w: ChatWallet<u8> = ChatWallet::open_wallet(Ok(own()), ASSET.to_string()).unwrap();
    assert_eq!(
        w.get_rx_extra_data(&Ok(entries.clone()), 10, &"xet:bob".to_string()),
        vec!["".to_string(), "a".to_string(), "b".to_string(), "d".to_string()]
    );
    assert_eq!(
        w.get_rx_extra_data(&Ok(entries.clone()), 0, &"xet:bob".to_string()),
        vec!["".to_string(), "old".to_string(), "a".to_string(), "b".to_string(), "d".to_string()]
    );
    assert_eq!(w.get_rx_extra_data(&Ok(entries), 0, &"xet:nobody".to_string()), vec!["".to_string()]);
    assert_eq!(
        w.get_rx_extra_data(&Err("storage closed".to_string()), 0, &"xet:bob".to_string()),
        vec!["Cannot get wallet txs".to_string()]
    );
}

#[test]
fn sender_whose_address_is_a_name_still_gets_a_contact() {
    let mut store = ChatStore::new();
    store.db_add_contact(contact("xet:x", "xet:other"), &own()).unwrap();
    store.db_add_contact(contact("longer-name", "xet:third"), &own()).unwrap();
    store.db_store_init_message(received("xet:x", "hi", "a1"), &own());
    let contacts = store.db_read_contacts();
    assert_eq!(contacts.len(), 3);
    assert_eq!(contacts[2].address, "xet:x");
    assert_eq!(contacts[2].name, format!("xet:x{}", "~".repeat(12)));
    store.db_store_init_message(received("xet:x", "again", "a2"), &own());
    assert_eq!(store.db_read_contacts().len(), 3);
}

#[test]
fn process_incoming_tx_reads_first_transfer_only() {
    let e = TransactionEntry {
        hash: "h".to_string(),
        timestamp: 1,
        topoheight: 2,
        entry: EntryType::Incoming {
            from: "xet:bob".to_string(),
            transfers: vec![
                IncomingTransfer { asset: ASSET.to_string(), amount: 0, payload: None },
                IncomingTransfer { asset: ASSET.to_string(), amount: 0, payload: Some("x".to_string()) },
            ],
        },
    };
    assert_eq!(process_incoming_tx(e), None);
    let other = TransactionEntry { hash: "h".to_string(), timestamp: 1, topoheight: 2, entry: EntryType::Other };
    assert_eq!(process_incoming_tx(other), None);
}

#[test]
fn mnemonic_language_indices() {
    assert_eq!(MnemonicLanguage::English.convert(), 0);
    assert_eq!(MnemonicLanguage::Japanese.convert(), 5);
    assert_eq!(MnemonicLanguage::German.convert(), 10);
}
