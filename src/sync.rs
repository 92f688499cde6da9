use vstd::prelude::*;

use crate::records::{Confirmation, DbContact, DbMessage, Direction, MessageStatus};
use crate::store::{as_confirmed, contacts_after_message, has_address, is_confirmed_by, ChatStore};
use crate::wallet::{ChatWallet, SummaryTransaction, Transfer};

verus! {

/// Address that receives the service fee attached to every chat message.
pub const DEV_FEE_ADDRESS: &'static str = "xet:gqef8a3qusf476lcqv0f4us947swgf38yrrs3x9npltjzh7mrcrqqgvgex3";

/// The service fee, in atomic units of the chat asset (0.01 of a coin with
/// eight decimals).
pub const DEV_FEE_AMOUNT: u64 = 1_000_000;

/// The row written for an outgoing message before anything goes to the
/// network.
pub open spec fn pending_row(
    contact_address: String,
    topoheight: u64,
    text: String,
    asset: String,
) -> DbMessage {
    DbMessage {
        status: MessageStatus::Pending,
        direction: Direction::Outgoing,
        address: contact_address,
        hash: None,
        fee: 0,
        timestamp: 0,
        topoheight,
        asset,
        amount: 0,
        message: Some(text),
    }
}

/// A pending outgoing message to `contact_address`, written at `topoheight`.
pub fn outgoing_message(contact_address: String, topoheight: u64, text: String, asset: String) -> (r:
    DbMessage)
    ensures
        r == pending_row(contact_address, topoheight, text, asset),
{
    DbMessage {
        status: MessageStatus::Pending,
        direction: Direction::Outgoing,
        address: contact_address,
        hash: None,
        fee: 0,
        timestamp: 0,
        topoheight,
        asset,
        amount: 0,
        message: Some(text),
    }
}

/// `ts` are the transfers that carry the chat message `text` to
/// `contact_address`: the service fee first, with no payload, then a
/// zero-amount transfer to the contact whose payload is the text, both in
/// `asset`.
pub open spec fn carries_message(ts: Seq<Transfer>, contact_address: String, text: String, asset: String) -> bool {
    &&& ts.len() == 2
    &&& ts[0].amount == DEV_FEE_AMOUNT
    &&& ts[0].str_address@ == DEV_FEE_ADDRESS@
    &&& ts[0].asset_hash == asset
    &&& ts[0].extra_data is None
    &&& ts[1].amount == 0
    &&& ts[1].str_address == contact_address
    &&& ts[1].asset_hash == asset
    &&& ts[1].extra_data == Some(text)
}

/// The transfers that carry a chat message: the service fee first, then a
/// zero-amount transfer to the contact whose payload is the text.
pub fn message_transfers(contact_address: &String, text: &String, asset: &String) -> (r: Vec<
    Transfer,
>)
    ensures
        carries_message(r@, *contact_address, *text, *asset),
{
    let fee_transfer = Transfer {
        amount: DEV_FEE_AMOUNT,
        str_address: String::from_str(DEV_FEE_ADDRESS),
        asset_hash: asset.clone(),
        extra_data: None,
    };
    let text_transfer = Transfer {
        amount: 0,
        str_address: contact_address.clone(),
        asset_hash: asset.clone(),
        extra_data: Some(text.clone()),
    };
    let mut out: Vec<Transfer> = Vec::new();
    out.push(fee_transfer);
    out.push(text_transfer);
    out
}

/// `message` once the transaction `summary` carrying it went out.
pub fn mark_sent(message: DbMessage, summary: &SummaryTransaction) -> (r: DbMessage)
    ensures
        r == (DbMessage {
            status: MessageStatus::Sent,
            hash: Some(summary.hash),
            fee: summary.fee,
            ..message
        }),
{
    DbMessage { status: MessageStatus::Sent, hash: Some(summary.hash.clone()), fee: summary.fee, ..message }
}

/// `row` after each confirmation of `cs` is applied in turn.
pub open spec fn confirmed_row(row: DbMessage, cs: Seq<Confirmation>) -> DbMessage
    decreases cs.len(),
{
    if cs.len() == 0 {
        row
    } else {
        let r = confirmed_row(row, cs.drop_last());
        if is_confirmed_by(r, cs.last()) {
            as_confirmed(r, cs.last())
        } else {
            r
        }
    }
}

/// The contacts `after` keep `before` as a prefix, hold a contact for
/// every counterparty of `ms` other than `own`, and add only such contacts.
pub open spec fn contacts_cover_senders(
    before: Seq<DbContact>,
    after: Seq<DbContact>,
    ms: Seq<DbMessage>,
    own: Seq<char>,
) -> bool {
    &&& before.len() <= after.len()
    &&& after.subrange(0, before.len() as int) == before
    &&& forall|i: int|
        0 <= i < ms.len() && (#[trigger] ms[i]).address@ != own ==> has_address(after, ms[i].address@)
    &&& forall|j: int|
        before.len() <= j < after.len() ==> {
            &&& (#[trigger] after[j]).address@ != own
            &&& exists|i: int| 0 <= i < ms.len() && #[trigger] ms[i].address@ == after[j].address@
        }
}

/// Moves the wallet's inbox into the store, oldest first, creating a contact
/// for each unknown sender on the way.
pub fn reconcile_inbox<T>(store: &mut ChatStore, wallet: &mut ChatWallet<T>)
    requires
        old(store).wf(),
    ensures
        final(store).wf(),
        final(store).messages() == old(store).messages() + old(wallet).rx_messages@,
        contacts_cover_senders(
            old(store).contacts(),
            final(store).contacts(),
            old(wallet).rx_messages@,
            old(wallet).address@,
        ),
        final(wallet).rx_messages@.len() == 0,
        final(wallet).address == old(wallet).address,
        final(wallet).chat_asset == old(wallet).chat_asset,
        final(wallet).balance == old(wallet).balance,
        final(wallet).topoheight == old(wallet).topoheight,
        final(wallet).is_online == old(wallet).is_online,
        final(wallet).pending_transactions == old(wallet).pending_transactions,
        final(wallet).sent_tx_hashes == old(wallet).sent_tx_hashes,
        final(wallet).observed_confirmations == old(wallet).observed_confirmations,
        final(wallet).confirmed_messages == old(wallet).confirmed_messages,
{
    let mut inbox: Vec<DbMessage> = Vec::new();
    std::mem::swap(&mut inbox, &mut wallet.rx_messages);
    let ghost start_messages = store.messages();
    let ghost start_contacts = store.contacts();
    let ghost own = wallet.address@;
    assert(start_contacts.subrange(0, start_contacts.len() as int) =~= start_contacts);
    let mut i: usize = 0;
    while i < inbox.len()
        invariant
            i <= inbox@.len(),
            store.wf(),
            own == wallet.address@,
            store.messages() == start_messages + inbox@.take(i as int),
            contacts_cover_senders(start_contacts, store.contacts(), inbox@.take(i as int), own),
        decreases inbox@.len() - i,
    {
        let ghost before = store.contacts();
        let ghost done = inbox@.take(i as int);
        let ghost next = inbox@.take(i + 1);
        assert(next.drop_last() =~= done);
        store.db_store_init_message(inbox[i].duplicate(), &wallet.address);
        let ghost after = store.contacts();
        let ghost m = inbox@[i as int];
        assert(next[i as int] == m);
        assert(before.len() <= after.len() && after.subrange(0, before.len() as int) == before);
        assert(after.subrange(0, start_contacts.len() as int) =~= before.subrange(
            0,
            start_contacts.len() as int,
        ));
        assert forall|k: int| 0 <= k < next.len() && (#[trigger] next[k]).address@ != own implies has_address(
            after,
            next[k].address@,
        ) by {
            if k < i {
                assert(next[k] == done[k]);
                let w = choose|w: int| 0 <= w < before.len() && #[trigger] before[w].address@ == done[k].address@;
                assert(after[w] == after.subrange(0, before.len() as int)[w]);
            }
        }
        assert forall|j: int| start_contacts.len() <= j < after.len() implies {
            &&& (#[trigger] after[j]).address@ != own
            &&& exists|k: int| 0 <= k < next.len() && #[trigger] next[k].address@ == after[j].address@
        } by {
            if j < before.len() {
                assert(after[j] == after.subrange(0, before.len() as int)[j]);
                let k = choose|k: int| 0 <= k < done.len() && #[trigger] done[k].address@ == before[j].address@;
                assert(next[k] == done[k]);
            } else {
                assert(next[i as int].address@ == after[j].address@);
            }
        }
        assert(start_messages + inbox@.take(i + 1) =~= (start_messages + inbox@.take(
            i as int,
        )).push(inbox@[i as int]));
        i = i + 1;
    }
    assert(inbox@.take(i as int) =~= inbox@);
}

/// Applies the wallet's confirmed transactions to the store, in the order
/// they were confirmed, and empties that queue.
pub fn apply_confirmations<T>(store: &mut ChatStore, wallet: &mut ChatWallet<T>)
    requires
        old(store).wf(),
    ensures
        final(store).wf(),
        final(store).contacts() == old(store).contacts(),
        final(store).messages().len() == old(store).messages().len(),
        forall|i: int|
            0 <= i < old(store).messages().len() ==> #[trigger] final(store).messages()[i]
                == confirmed_row(old(store).messages()[i], old(wallet).confirmed_messages@),
        final(wallet).confirmed_messages@.len() == 0,
        final(wallet).rx_messages == old(wallet).rx_messages,
        final(wallet).address == old(wallet).address,
        final(wallet).chat_asset == old(wallet).chat_asset,
        final(wallet).balance == old(wallet).balance,
        final(wallet).topoheight == old(wallet).topoheight,
        final(wallet).is_online == old(wallet).is_online,
        final(wallet).pending_transactions == old(wallet).pending_transactions,
        final(wallet).sent_tx_hashes == old(wallet).sent_tx_hashes,
        final(wallet).observed_confirmations == old(wallet).observed_confirmations,
{
    let mut queue: Vec<Confirmation> = Vec::new();
    std::mem::swap(&mut queue, &mut wallet.confirmed_messages);
    let ghost start = store.messages();
    let mut k: usize = 0;
    while k < queue.len()
        invariant
            k <= queue@.len(),
            store.wf(),
            store.contacts() == old(store).contacts(),
            start == old(store).messages(),
            store.messages().len() == start.len(),
            forall|i: int|
                0 <= i < start.len() ==> #[trigger] store.messages()[i] == confirmed_row(
                    start[i],
                    queue@.take(k as int),
                ),
        decreases queue@.len() - k,
    {
        let ghost before = store.messages();
        store.db_update_status_topoheight(&queue[k]);
        assert forall|i: int| 0 <= i < start.len() implies #[trigger] store.messages()[i]
            == confirmed_row(start[i], queue@.take(k + 1)) by {
            assert(queue@.take(k + 1).drop_last() =~= queue@.take(k as int));
            assert(queue@.take(k + 1).last() == queue@[k as int]);
            assert(before[i] == confirmed_row(start[i], queue@.take(k as int)));
        }
        k = k + 1;
    }
    assert(queue@.take(k as int) =~= queue@);
}

} // verus!
