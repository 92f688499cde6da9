use vstd::prelude::*;

use crate::events::{
    collect_payloads, incoming_message, payloads_from, process_incoming_tx, EntryType,
    TransactionEntry, WalletEvent,
};
use crate::laws::{lemma_inbox_counts_payload_events, payload_events};
use crate::pending::PendingCache;
use crate::records::{Confirmation, DbMessage, TableSize};

verus! {

/// A value transfer to build, in atomic units of its asset.
#[derive(Clone, Debug, PartialEq, Eq)]
pub struct Transfer {
    pub amount: u64,
    pub str_address: String,
    pub asset_hash: String,
    pub extra_data: Option<String>,
}

/// What was built: its hash as hex text, its fee, and the transfers it holds.
#[derive(Clone, Debug, PartialEq, Eq)]
pub struct SummaryTransaction {
    pub hash: String,
    pub fee: u64,
    pub transfers: Vec<Transfer>,
}

/// A transaction that the wallet engine has signed, with the storage changes
/// that applying it will make, kept together as `transaction`.
pub struct BuiltTransaction<T> {
    pub hash: String,
    pub fee: u64,
    pub transaction: T,
}

/// Why a broadcast did not go through.
#[derive(Clone, Debug, PartialEq, Eq)]
pub enum BroadcastError {
    /// The wallet is offline, so nothing was submitted.
    Offline,
    /// The network refused the transaction.
    Rejected(String),
}

/// How an adapter operation failed.
#[derive(Clone, Debug, PartialEq, Eq)]
pub enum WalletError {
    /// The wallet could not be created or restored.
    Creation(String),
    /// The wallet could not be opened: bad password or no such wallet.
    Auth(String),
    /// The transaction could not be built.
    Build(String),
    /// The transaction was not broadcast.
    Broadcast(BroadcastError),
    /// No pending transaction has that hash.
    NotFound,
}

/// Material to restore a wallet from.
#[derive(Clone, Debug, PartialEq, Eq)]
pub enum RecoverOption {
    Seed(String),
    PrivateKey(String),
}

/// What to restore a wallet from: the seed phrase when one is given, else
/// the private key when one is given, else nothing (a new wallet).
pub fn recover_option(seed: Option<String>, private_key: Option<String>) -> (r: Option<RecoverOption>)
    ensures
        seed matches Some(s) ==> r == Some(RecoverOption::Seed(s)),
        seed is None ==> r == match private_key {
            Some(k) => Some(RecoverOption::PrivateKey(k)),
            None => None::<RecoverOption>,
        },
{
    match seed {
        Some(s) => Some(RecoverOption::Seed(s)),
        None => match private_key {
            Some(k) => Some(RecoverOption::PrivateKey(k)),
            None => None,
        },
    }
}

/// The precomputed-table size to use: the one asked for, else the smallest.
pub fn table_size_or_default(size: Option<TableSize>) -> (r: TableSize)
    ensures
        size matches Some(t) ==> r == t,
        size is None ==> r == TableSize::L1Low,
{
    match size {
        Some(t) => t,
        None => TableSize::L1Low,
    }
}

/// The chat side of a wallet: session state, the inbox of received messages
/// and the cache of transactions built but not yet broadcast.
pub struct ChatWallet<T> {
    pub address: String,
    pub chat_asset: String,
    pub rx_messages: Vec<DbMessage>,
    pub balance: u64,
    pub topoheight: u64,
    pub is_online: bool,
    pub pending_transactions: PendingCache<T>,
    pub sent_tx_hashes: Vec<String>,
    pub observed_confirmations: Vec<Confirmation>,
    pub confirmed_messages: Vec<Confirmation>,
}

/// The messages an event adds to the inbox: the one it carries, or none.
pub open spec fn inbox_entry(e: WalletEvent) -> Seq<DbMessage> {
    match e {
        WalletEvent::NewTransaction(t) => match incoming_message(t) {
            Some(m) => seq![m],
            None => Seq::empty(),
        },
        _ => Seq::empty(),
    }
}

/// The inbox after `events` are processed in order, starting from `inbox`.
pub open spec fn inbox_after(inbox: Seq<DbMessage>, events: Seq<WalletEvent>) -> Seq<DbMessage>
    decreases events.len(),
{
    if events.len() == 0 {
        inbox
    } else {
        inbox_after(inbox, events.drop_last()) + inbox_entry(events.last())
    }
}

/// The cached balance after `e`: only a change of the chat asset counts.
pub open spec fn balance_after(e: WalletEvent, chat_asset: Seq<char>, balance: u64) -> u64 {
    match e {
        WalletEvent::BalanceChanged { asset, balance: b } => if asset@ == chat_asset {
            b
        } else {
            balance
        },
        _ => balance,
    }
}

/// The ledger height after `e`.
pub open spec fn topoheight_after(e: WalletEvent, topoheight: u64) -> u64 {
    match e {
        WalletEvent::NewTopoHeight(h) => h,
        _ => topoheight,
    }
}

/// Whether `hash` is among the hashes of transactions this wallet sent.
pub open spec fn hash_listed(sent: Seq<String>, hash: Seq<char>) -> bool {
    exists|i: int| 0 <= i < sent.len() && #[trigger] sent[i]@ == hash
}

/// The confirmation an event shows: an outgoing entry for a sent hash.
pub open spec fn confirmation_seen(e: WalletEvent, sent: Seq<String>) -> Seq<Confirmation> {
    match e {
        WalletEvent::NewTransaction(t) => if t.entry is Outgoing && hash_listed(sent, t.hash@) {
            seq![Confirmation { hash: t.hash, topoheight: t.topoheight, timestamp: t.timestamp }]
        } else {
            Seq::empty()
        },
        _ => Seq::empty(),
    }
}

impl<T> ChatWallet<T> {
    pub open spec fn wf(&self) -> bool {
        self.pending_transactions.wf()
    }

    /// A session that has just been opened for the wallet at `address`.
    pub open spec fn is_fresh(&self, address: Seq<char>, chat_asset: Seq<char>) -> bool {
        &&& self.wf()
        &&& self.address@ == address
        &&& self.chat_asset@ == chat_asset
        &&& self.rx_messages@.len() == 0
        &&& self.balance == 0
        &&& self.topoheight == 0
        &&& !self.is_online
        &&& self.pending_transactions@ == Map::<Seq<char>, T>::empty()
        &&& self.sent_tx_hashes@.len() == 0
        &&& self.observed_confirmations@.len() == 0
        &&& self.confirmed_messages@.len() == 0
    }

    /// `a` and `b` agree on everything but the pending cache.
    pub open spec fn same_but_cache(a: &Self, b: &Self) -> bool {
        &&& a.address == b.address
        &&& a.chat_asset == b.chat_asset
        &&& a.rx_messages == b.rx_messages
        &&& a.balance == b.balance
        &&& a.topoheight == b.topoheight
        &&& a.is_online == b.is_online
        &&& a.sent_tx_hashes == b.sent_tx_hashes
        &&& a.observed_confirmations == b.observed_confirmations
        &&& a.confirmed_messages == b.confirmed_messages
    }

    fn fresh(address: String, chat_asset: String) -> (r: Self)
        ensures
            r.is_fresh(address@, chat_asset@),
    {
        ChatWallet {
            address,
            chat_asset,
            rx_messages: Vec::new(),
            balance: 0,
            topoheight: 0,
            is_online: false,
            pending_transactions: PendingCache::new(),
            sent_tx_hashes: Vec::new(),
            observed_confirmations: Vec::new(),
            confirmed_messages: Vec::new(),
        }
    }

    /// Starts a session on a wallet that the engine created or restored:
    /// `created` holds the new wallet's address, or why the engine refused.
    pub fn create_wallet(created: Result<String, String>, chat_asset: String) -> (r: Result<
        Self,
        WalletError,
    >)
        ensures
            match created {
                Ok(address) => r matches Ok(w) && w.is_fresh(address@, chat_asset@),
                Err(e) => r == Err::<Self, WalletError>(WalletError::Creation(e)),
            },
    {
        match created {
            Ok(address) => Ok(Self::fresh(address, chat_asset)),
            Err(e) => Err(WalletError::Creation(e)),
        }
    }

    /// Starts a session on a wallet that the engine opened: `opened` holds
    /// the wallet's address, or why the engine refused (bad password, no
    /// such wallet).
    pub fn open_wallet(opened: Result<String, String>, chat_asset: String) -> (r: Result<
        Self,
        WalletError,
    >)
        ensures
            match opened {
                Ok(address) => r matches Ok(w) && w.is_fresh(address@, chat_asset@),
                Err(e) => r == Err::<Self, WalletError>(WalletError::Auth(e)),
            },
    {
        match opened {
            Ok(address) => Ok(Self::fresh(address, chat_asset)),
            Err(e) => Err(WalletError::Auth(e)),
        }
    }

    /// Records the balance just read from the wallet's storage and returns it.
    pub fn get_balance(&mut self, fresh_balance: u64) -> (r: u64)
        ensures
            r == fresh_balance,
            final(self).balance == fresh_balance,
            final(self).pending_transactions == old(self).pending_transactions,
            final(self).address == old(self).address,
            final(self).chat_asset == old(self).chat_asset,
            final(self).rx_messages == old(self).rx_messages,
            final(self).topoheight == old(self).topoheight,
            final(self).is_online == old(self).is_online,
            final(self).sent_tx_hashes == old(self).sent_tx_hashes,
            final(self).observed_confirmations == old(self).observed_confirmations,
            final(self).confirmed_messages == old(self).confirmed_messages,
    {
        self.balance = fresh_balance;
        fresh_balance
    }

    /// Tracks the outcome of a build of `transfers`. Any earlier candidate
    /// that was never broadcast is dropped first, so at most the new one is
    /// pending afterwards; a failed build leaves the cache empty.
    pub fn create_transfers_transaction(
        &mut self,
        transfers: Vec<Transfer>,
        built: Result<BuiltTransaction<T>, String>,
    ) -> (r: Result<SummaryTransaction, WalletError>)
        requires
            old(self).wf(),
        ensures
            final(self).wf(),
            Self::same_but_cache(final(self), old(self)),
            match built {
                Ok(b) => {
                    &&& final(self).pending_transactions@ == Map::<Seq<char>, T>::empty().insert(
                        b.hash@,
                        b.transaction,
                    )
                    &&& r matches Ok(s) && s.hash@ == b.hash@ && s.fee == b.fee && s.transfers
                        == transfers
                },
                Err(e) => {
                    &&& final(self).pending_transactions@ == Map::<Seq<char>, T>::empty()
                    &&& r == Err::<SummaryTransaction, WalletError>(WalletError::Build(e))
                },
            },
    {
        self.pending_transactions.clear();
        match built {
            Ok(b) => {
                let BuiltTransaction { hash, fee, transaction } = b;
                self.pending_transactions.insert(hash.clone(), transaction);
                Ok(SummaryTransaction { hash, fee, transfers })
            },
            Err(e) => Err(WalletError::Build(e)),
        }
    }

    /// Takes the pending transaction `tx_hash` out of the cache.
    pub fn clear_transaction(&mut self, tx_hash: &String) -> (r: Result<T, WalletError>)
        requires
            old(self).wf(),
        ensures
            final(self).wf(),
            Self::same_but_cache(final(self), old(self)),
            final(self).pending_transactions@ == old(self).pending_transactions@.remove(tx_hash@),
            old(self).pending_transactions@.dom().contains(tx_hash@) ==> r == Ok::<T, WalletError>(
                old(self).pending_transactions@[tx_hash@],
            ),
            !old(self).pending_transactions@.dom().contains(tx_hash@) ==> {
                &&& r == Err::<T, WalletError>(WalletError::NotFound)
                &&& final(self).pending_transactions@ == old(self).pending_transactions@
            },
    {
        match self.pending_transactions.remove(tx_hash) {
            Some(t) => Ok(t),
            None => Err(WalletError::NotFound),
        }
    }

    /// First half of a broadcast: while online, takes the transaction
    /// `tx_hash` out of the cache and hands it over for submission. Offline,
    /// nothing changes.
    pub fn broadcast_transaction(&mut self, tx_hash: &String) -> (r: Result<T, WalletError>)
        requires
            old(self).wf(),
        ensures
            final(self).wf(),
            Self::same_but_cache(final(self), old(self)),
            !old(self).is_online ==> {
                &&& r == Err::<T, WalletError>(WalletError::Broadcast(BroadcastError::Offline))
                &&& final(self).pending_transactions@ == old(self).pending_transactions@
            },
            old(self).is_online ==> {
                &&& final(self).pending_transactions@ == old(self).pending_transactions@.remove(
                    tx_hash@,
                )
                &&& old(self).pending_transactions@.dom().contains(tx_hash@) ==> r == Ok::<
                    T,
                    WalletError,
                >(old(self).pending_transactions@[tx_hash@])
                &&& !old(self).pending_transactions@.dom().contains(tx_hash@) ==> r == Err::<
                    T,
                    WalletError,
                >(WalletError::NotFound)
            },
    {
        if !self.is_online {
            return Err(WalletError::Broadcast(BroadcastError::Offline));
        }
        self.clear_transaction(tx_hash)
    }

    /// Second half of a broadcast, given what the network answered. On a
    /// refusal the transaction goes back into the cache under its hash, to be
    /// retried, and the error is passed on. On success the hash is recorded as
    /// sent and the transaction is handed back so its storage changes can be
    /// applied.
    pub fn settle_broadcast(&mut self, tx_hash: String, transaction: T, submitted: Result<
        (),
        String,
    >) -> (r: Result<T, WalletError>)
        requires
            old(self).wf(),
        ensures
            final(self).wf(),
            final(self).address == old(self).address,
            final(self).chat_asset == old(self).chat_asset,
            final(self).rx_messages == old(self).rx_messages,
            final(self).balance == old(self).balance,
            final(self).topoheight == old(self).topoheight,
            final(self).is_online == old(self).is_online,
            final(self).observed_confirmations == old(self).observed_confirmations,
            final(self).confirmed_messages == old(self).confirmed_messages,
            match submitted {
                Ok(_) => {
                    &&& r == Ok::<T, WalletError>(transaction)
                    &&& final(self).pending_transactions@ == old(self).pending_transactions@
                    &&& final(self).sent_tx_hashes@ == old(self).sent_tx_hashes@.push(tx_hash)
                },
                Err(e) => {
                    &&& r == Err::<T, WalletError>(WalletError::Broadcast(BroadcastError::Rejected(e)))
                    &&& final(self).pending_transactions@ == old(
                        self,
                    ).pending_transactions@.insert(tx_hash@, transaction)
                    &&& final(self).sent_tx_hashes == old(self).sent_tx_hashes
                },
            },
    {
        match submitted {
            Ok(()) => {
                self.sent_tx_hashes.push(tx_hash);
                Ok(transaction)
            },
            Err(e) => {
                self.pending_transactions.insert(tx_hash, transaction);
                Err(WalletError::Broadcast(BroadcastError::Rejected(e)))
            },
        }
    }

    /// Whether `hash` is among the sent hashes.
    fn was_sent(&self, hash: &String) -> (r: bool)
        ensures
            r == hash_listed(self.sent_tx_hashes@, hash@),
    {
        let mut i: usize = 0;
        while i < self.sent_tx_hashes.len()
            invariant
                i <= self.sent_tx_hashes@.len(),
                forall|j: int| 0 <= j < i ==> #[trigger] self.sent_tx_hashes@[j]@ != hash@,
            decreases self.sent_tx_hashes@.len() - i,
        {
            if self.sent_tx_hashes[i] == *hash {
                return true;
            }
            i = i + 1;
        }
        false
    }

    /// Processes `events` one after the other, in delivery order, as the
    /// daemon's owning loop does.
    pub fn process_events(&mut self, events: Vec<WalletEvent>)
        requires
            old(self).wf(),
        ensures
            final(self).wf(),
            final(self).rx_messages@ == inbox_after(old(self).rx_messages@, events@),
            final(self).rx_messages@.len() == old(self).rx_messages@.len() + payload_events(events@),
            final(self).address == old(self).address,
            final(self).chat_asset == old(self).chat_asset,
            final(self).is_online == old(self).is_online,
            final(self).pending_transactions == old(self).pending_transactions,
            final(self).sent_tx_hashes == old(self).sent_tx_hashes,
    {
        let ghost start = self.rx_messages@;
        let mut events = events;
        let ghost all = events@;
        assert(all.len() == events.len());
        let mut done: usize = 0;
        while events.len() > 0
            invariant
                self.wf(),
                done + events@.len() == all.len(),
                all.len() <= usize::MAX,
                events@ == all.skip(done as int),
                self.rx_messages@ == inbox_after(start, all.take(done as int)),
                self.address == old(self).address,
                self.chat_asset == old(self).chat_asset,
                self.is_online == old(self).is_online,
                self.pending_transactions == old(self).pending_transactions,
                self.sent_tx_hashes == old(self).sent_tx_hashes,
            decreases events@.len(),
        {
            let event = events.remove(0);
            assert(event == all[done as int]);
            assert(events@ =~= all.skip(done + 1));
            assert(all.take(done + 1).drop_last() =~= all.take(done as int));
            self.backgroud_daemon(event);
            done = done + 1;
        }
        assert(all.take(done as int) =~= all);
        proof {
            lemma_inbox_counts_payload_events(start, all);
        }
    }

    /// The payload texts that `contact_address` sent, read from the wallet's
    /// transaction history at height `min_topoheight` or later. The list
    /// opens with an empty text; when the history could not be read it holds
    /// only the text "Cannot get wallet txs".
    pub fn get_rx_extra_data(
        &self,
        history: &Result<Vec<TransactionEntry>, String>,
        min_topoheight: u64,
        contact_address: &String,
    ) -> (r: Vec<String>)
        ensures
            match history {
                Ok(entries) => {
                    &&& r@.len() == 1 + payloads_from(entries@, contact_address@, min_topoheight).len()
                    &&& r@[0]@.len() == 0
                    &&& r@.skip(1) == payloads_from(entries@, contact_address@, min_topoheight)
                },
                Err(_) => r@.len() == 1 && r@[0]@ == "Cannot get wallet txs"@,
            },
    {
        match history {
            Ok(entries) => {
                let mut out: Vec<String> = Vec::new();
                out.push(String::new());
                let mut rest = collect_payloads(entries, min_topoheight, contact_address);
                let ghost tail = rest@;
                out.append(&mut rest);
                assert(out@.skip(1) =~= tail);
                out
            },
            Err(_) => {
                let mut out: Vec<String> = Vec::new();
                out.push(String::from_str("Cannot get wallet txs"));
                out
            },
        }
    }

    /// Processes one event of the wallet engine, in delivery order.
    ///
    /// A new transaction whose first transfer carries a payload adds its
    /// message to the inbox; an outgoing one for a hash this wallet sent is
    /// kept as a seen confirmation. A new height is recorded and turns the
    /// seen confirmations into confirmed messages. A balance change counts
    /// for the chat asset only.
    pub fn backgroud_daemon(&mut self, event: WalletEvent)
        requires
            old(self).wf(),
        ensures
            final(self).wf(),
            final(self).rx_messages@ == old(self).rx_messages@ + inbox_entry(event),
            final(self).balance == balance_after(event, old(self).chat_asset@, old(self).balance),
            final(self).topoheight == topoheight_after(event, old(self).topoheight),
            event is NewTopoHeight ==> {
                &&& final(self).observed_confirmations@.len() == 0
                &&& final(self).confirmed_messages@ == old(self).confirmed_messages@ + old(
                    self,
                ).observed_confirmations@
            },
            !(event is NewTopoHeight) ==> {
                &&& final(self).observed_confirmations@ == old(self).observed_confirmations@
                    + confirmation_seen(event, old(self).sent_tx_hashes@)
                &&& final(self).confirmed_messages == old(self).confirmed_messages
            },
            final(self).address == old(self).address,
            final(self).chat_asset == old(self).chat_asset,
            final(self).is_online == old(self).is_online,
            final(self).pending_transactions == old(self).pending_transactions,
            final(self).sent_tx_hashes == old(self).sent_tx_hashes,
    {
        match event {
            WalletEvent::NewTransaction(transaction) => {
                let outgoing = match &transaction.entry {
                    EntryType::Outgoing => true,
                    _ => false,
                };
                if outgoing && self.was_sent(&transaction.hash) {
                    self.observed_confirmations.push(
                        Confirmation {
                            hash: transaction.hash.clone(),
                            topoheight: transaction.topoheight,
                            timestamp: transaction.timestamp,
                        },
                    );
                } else {
                    assert(self.observed_confirmations@ =~= self.observed_confirmations@ + Seq::<
                        Confirmation,
                    >::empty());
                }
                match process_incoming_tx(transaction) {
                    Some(message) => {
                        self.rx_messages.push(message);
                    },
                    None => {
                        assert(self.rx_messages@ =~= self.rx_messages@ + Seq::<DbMessage>::empty());
                    },
                }
            },
            WalletEvent::NewTopoHeight(topoheight) => {
                self.topoheight = topoheight;
                let mut seen = Vec::new();
                std::mem::swap(&mut seen, &mut self.observed_confirmations);
                self.confirmed_messages.append(&mut seen);
                assert(self.rx_messages@ =~= self.rx_messages@ + Seq::<DbMessage>::empty());
            },
            WalletEvent::BalanceChanged { asset, balance } => {
                if asset == self.chat_asset {
                    self.balance = balance;
                }
                assert(self.rx_messages@ =~= self.rx_messages@ + Seq::<DbMessage>::empty());
                assert(self.observed_confirmations@ =~= self.observed_confirmations@ + Seq::<
                    Confirmation,
                >::empty());
            },
            WalletEvent::Other => {
                assert(self.rx_messages@ =~= self.rx_messages@ + Seq::<DbMessage>::empty());
                assert(self.observed_confirmations@ =~= self.observed_confirmations@ + Seq::<
                    Confirmation,
                >::empty());
            },
        }
    }
}

} // verus!
