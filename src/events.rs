use vstd::prelude::*;

use crate::records::{DbMessage, Direction, MessageStatus};

verus! {

/// One transfer of a transaction that reached this wallet, with its
/// decrypted payload text, if it carried one.
#[derive(Clone, Debug, PartialEq, Eq)]
pub struct IncomingTransfer {
    pub asset: String,
    pub amount: u64,
    pub payload: Option<String>,
}

/// What a transaction in the wallet's history did for this wallet.
#[derive(Clone, Debug, PartialEq, Eq)]
pub enum EntryType {
    Incoming { from: String, transfers: Vec<IncomingTransfer> },
    Outgoing,
    Other,
}

/// A transaction in the wallet's history, with its hash as hex text.
#[derive(Clone, Debug, PartialEq, Eq)]
pub struct TransactionEntry {
    pub hash: String,
    pub timestamp: u64,
    pub topoheight: u64,
    pub entry: EntryType,
}

/// What the wallet engine reports, one event at a time.
#[derive(Clone, Debug, PartialEq, Eq)]
pub enum WalletEvent {
    NewTransaction(TransactionEntry),
    NewTopoHeight(u64),
    BalanceChanged { asset: String, balance: u64 },
    Other,
}

/// No transfer after the first carries a payload.
pub open spec fn single_payload(ts: Seq<IncomingTransfer>) -> bool {
    forall|i: int| 1 <= i < ts.len() ==> (#[trigger] ts[i]).payload is None
}

/// The chat message an entry carries. By protocol a message transaction
/// carries one payload, on its first transfer: an incoming entry whose first
/// transfer has a payload and no other transfer does is a message; an entry
/// with payloads on later transfers breaks the protocol and is rejected.
pub open spec fn incoming_message(t: TransactionEntry) -> Option<DbMessage> {
    match t.entry {
        EntryType::Incoming { from, transfers } => {
            if transfers@.len() > 0 && transfers@[0].payload is Some && single_payload(transfers@) {
                Some(
                    DbMessage {
                        status: MessageStatus::Confirmed,
                        direction: Direction::Incoming,
                        address: from,
                        hash: Some(t.hash),
                        fee: 0,
                        timestamp: t.timestamp,
                        topoheight: t.topoheight,
                        asset: transfers@[0].asset,
                        amount: transfers@[0].amount,
                        message: transfers@[0].payload,
                    },
                )
            } else {
                None
            }
        },
        _ => None,
    }
}

/// Turns a history entry into the chat message it carries, if any.
#[verifier::loop_isolation(false)]
pub fn process_incoming_tx(transaction: TransactionEntry) -> (r: Option<DbMessage>)
    ensures
        r == incoming_message(transaction),
{
    let TransactionEntry { hash, timestamp, topoheight, entry } = transaction;
    match entry {
        EntryType::Incoming { from, mut transfers } => {
            if transfers.len() == 0 {
                return None;
            }
            let mut i: usize = 1;
            while i < transfers.len()
                invariant
                    1 <= i <= transfers@.len(),
                    forall|k: int| 1 <= k < i ==> (#[trigger] transfers@[k]).payload is None,
                decreases transfers@.len() - i,
            {
                if transfers[i].payload.is_some() {
                    assert(!single_payload(transfers@));
                    return None;
                }
                i = i + 1;
            }
            let first = transfers.remove(0);
            let IncomingTransfer { asset, amount, payload } = first;
            match payload {
                Some(text) => Some(
                    DbMessage {
                        status: MessageStatus::Confirmed,
                        direction: Direction::Incoming,
                        address: from,
                        hash: Some(hash),
                        fee: 0,
                        timestamp,
                        topoheight,
                        asset,
                        amount,
                        message: Some(text),
                    },
                ),
                None => None,
            }
        },
        _ => None,
    }
}

/// The payload texts of `ts`, in order.
pub open spec fn transfer_payloads(ts: Seq<IncomingTransfer>) -> Seq<String>
    decreases ts.len(),
{
    if ts.len() == 0 {
        Seq::empty()
    } else {
        let rest = transfer_payloads(ts.drop_last());
        match ts.last().payload {
            Some(p) => rest.push(p),
            None => rest,
        }
    }
}

/// The payload texts that `t` brought from `sender`, when it landed at
/// height `min_topoheight` or later.
pub open spec fn entry_payloads(t: TransactionEntry, sender: Seq<char>, min_topoheight: u64) -> Seq<
    String,
> {
    match t.entry {
        EntryType::Incoming { from, transfers } => if from@ == sender && t.topoheight
            >= min_topoheight {
            transfer_payloads(transfers@)
        } else {
            Seq::empty()
        },
        _ => Seq::empty(),
    }
}

/// The payload texts that the entries `es` brought from `sender` at height
/// `min_topoheight` or later, in history order.
pub open spec fn payloads_from(es: Seq<TransactionEntry>, sender: Seq<char>, min_topoheight: u64) -> Seq<
    String,
>
    decreases es.len(),
{
    if es.len() == 0 {
        Seq::empty()
    } else {
        payloads_from(es.drop_last(), sender, min_topoheight) + entry_payloads(
            es.last(),
            sender,
            min_topoheight,
        )
    }
}

/// The payload texts of `entries` from `contact_address`, at height
/// `min_topoheight` or later, in history order.
pub fn collect_payloads(entries: &Vec<TransactionEntry>, min_topoheight: u64, contact_address: &String) -> (r: Vec<
    String,
>)
    ensures
        r@ == payloads_from(entries@, contact_address@, min_topoheight),
{
    let mut out: Vec<String> = Vec::new();
    let mut i: usize = 0;
    while i < entries.len()
        invariant
            i <= entries@.len(),
            out@ == payloads_from(entries@.take(i as int), contact_address@, min_topoheight),
        decreases entries@.len() - i,
    {
        let ghost before = out@;
        assert(entries@.take(i + 1).drop_last() =~= entries@.take(i as int));
        let landed = entries[i].topoheight >= min_topoheight;
        match &entries[i].entry {
            EntryType::Incoming { from, transfers } => {
                if landed && *from == *contact_address {
                    let mut j: usize = 0;
                    while j < transfers.len()
                        invariant
                            j <= transfers@.len(),
                            out@ == before + transfer_payloads(transfers@.take(j as int)),
                        decreases transfers@.len() - j,
                    {
                        assert(transfers@.take(j + 1).drop_last() =~= transfers@.take(j as int));
                        match &transfers[j].payload {
                            Some(p) => {
                                out.push(p.clone());
                            },
                            None => {},
                        }
                        j = j + 1;
                    }
                    assert(transfers@.take(j as int) =~= transfers@);
                } else {
                    assert(out@ =~= before + Seq::<String>::empty());
                }
            },
            _ => {
                assert(out@ =~= before + Seq::<String>::empty());
            },
        }
        i = i + 1;
    }
    assert(entries@.take(i as int) =~= entries@);
    out
}

} // verus!
