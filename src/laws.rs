use vstd::prelude::*;

use crate::events::incoming_message;
use crate::events::WalletEvent;
use crate::records::{Confirmation, DbContact, DbMessage, MessageStatus};
use crate::store::{
    as_confirmed, as_sent, contact_refusal, contacts_unique, is_confirmed_by, is_pending_copy,
    lemma_filter_member, with_address, without_address, ContactError,
};
use crate::wallet::{inbox_after, inbox_entry};

verus! {

/// Whether `e` carries a chat message for the inbox.
pub open spec fn carries_payload(e: WalletEvent) -> bool {
    e matches WalletEvent::NewTransaction(t) && incoming_message(t) is Some
}

/// How many of `events` carry a chat message.
pub open spec fn payload_events(events: Seq<WalletEvent>) -> nat
    decreases events.len(),
{
    if events.len() == 0 {
        0
    } else {
        payload_events(events.drop_last()) + if carries_payload(events.last()) {
            1nat
        } else {
            0nat
        }
    }
}

/// After any run of events the inbox has grown by exactly the number of
/// events that carry a payload; an event without one adds nothing, and every
/// queued message has a text.
pub proof fn lemma_inbox_counts_payload_events(inbox: Seq<DbMessage>, events: Seq<WalletEvent>)
    ensures
        inbox_after(inbox, events).len() == inbox.len() + payload_events(events),
        inbox_after(inbox, events).subrange(0, inbox.len() as int) == inbox,
        forall|i: int|
            inbox.len() <= i < inbox_after(inbox, events).len() ==> (#[trigger] inbox_after(
                inbox,
                events,
            )[i]).message is Some,
        forall|e: WalletEvent| !carries_payload(e) ==> #[trigger] inbox_entry(e).len() == 0,
    decreases events.len(),
{
    if events.len() > 0 {
        lemma_inbox_counts_payload_events(inbox, events.drop_last());
        let before = inbox_after(inbox, events.drop_last());
        let added = inbox_entry(events.last());
        assert(inbox_after(inbox, events) == before + added);
        assert(added.len() == if carries_payload(events.last()) {
            1nat
        } else {
            0nat
        });
        assert((before + added).subrange(0, inbox.len() as int) =~= before.subrange(
            0,
            inbox.len() as int,
        ));
        assert forall|i: int| inbox.len() <= i < (before + added).len() implies (#[trigger] (before
            + added)[i]).message is Some by {
            if i >= before.len() {
                assert((before + added)[i] == added[i - before.len()]);
            } else {
                assert((before + added)[i] == before[i]);
            }
        }
    } else {
        assert(inbox.subrange(0, inbox.len() as int) =~= inbox);
    }
}

/// A broadcast that the network refused puts the transaction back under its
/// own hash: the cache is exactly as before, so a retry finds the same
/// transaction there.
pub proof fn lemma_failed_broadcast_keeps_entry<T>(cache: Map<Seq<char>, T>, hash: Seq<char>)
    requires
        cache.dom().contains(hash),
    ensures
        cache.remove(hash).insert(hash, cache[hash]) == cache,
        cache.remove(hash).insert(hash, cache[hash]).dom().contains(hash),
        cache.remove(hash).insert(hash, cache[hash])[hash] == cache[hash],
{
    assert(cache.remove(hash).insert(hash, cache[hash]) =~= cache);
}

/// A broadcast that went through leaves no entry under its hash.
pub proof fn lemma_successful_broadcast_drops_entry<T>(cache: Map<Seq<char>, T>, hash: Seq<char>)
    ensures
        !cache.remove(hash).dom().contains(hash),
{
}

/// Clearing a hash that was already cleared finds nothing and changes
/// nothing.
pub proof fn lemma_clear_twice<T>(cache: Map<Seq<char>, T>, hash: Seq<char>)
    ensures
        !cache.remove(hash).dom().contains(hash),
        cache.remove(hash).remove(hash) == cache.remove(hash),
{
    assert(cache.remove(hash).remove(hash) =~= cache.remove(hash));
}

/// Two builds without a broadcast in between: only the second one is
/// pending, whatever the first was.
pub proof fn lemma_rebuild_keeps_latest<T>(first: Seq<char>, second: Seq<char>, second_tx: T)
    ensures
        Map::<Seq<char>, T>::empty().insert(second, second_tx).dom() == set![second],
        Map::<Seq<char>, T>::empty().insert(second, second_tx)[second] == second_tx,
        first != second ==> !Map::<Seq<char>, T>::empty().insert(second, second_tx).dom().contains(
            first,
        ),
{
    assert(Map::<Seq<char>, T>::empty().insert(second, second_tx).dom() =~= set![second]);
}

/// Adding the same contact twice: the first succeeds and grows the list by
/// one, the second is refused as a duplicate and leaves it as it was.
pub proof fn lemma_add_contact_twice(contacts: Seq<DbContact>, c: DbContact, own: Seq<char>)
    requires
        contacts_unique(contacts),
        contact_refusal(contacts, c, own) is None,
    ensures
        contacts_unique(contacts.push(c)),
        contacts.push(c).len() == contacts.len() + 1,
        contact_refusal(contacts.push(c), c, own) == Some(ContactError::DuplicateName),
        contacts.push(c)[contacts.len() as int] == c,
        forall|i: int|
            0 <= i < contacts.len() + 1 && (#[trigger] contacts.push(c)[i]).name@ == c.name@ ==> i
                == contacts.len(),
        forall|i: int|
            0 <= i < contacts.len() + 1 && (#[trigger] contacts.push(c)[i]).address@ == c.address@
                ==> i == contacts.len(),
{
    let grown = contacts.push(c);
    assert(grown[contacts.len() as int] == c);
    assert forall|i: int, j: int|
        0 <= i < grown.len() && 0 <= j < grown.len() && i != j implies {
        &&& #[trigger] grown[i].name@ != #[trigger] grown[j].name@
        &&& grown[i].address@ != grown[j].address@
    } by {
        if i < contacts.len() && j < contacts.len() {
            assert(grown[i] == contacts[i] && grown[j] == contacts[j]);
        } else if i < contacts.len() {
            assert(grown[i] == contacts[i]);
        } else {
            assert(grown[j] == contacts[j]);
        }
    }
}

/// Once the contact at `address` is removed, no message with it is left.
pub proof fn lemma_removed_contact_has_no_messages(messages: Seq<DbMessage>, address: Seq<char>)
    ensures
        messages.filter(without_address(address)).filter(with_address(address)).len() == 0,
{
    let kept = messages.filter(without_address(address));
    if kept.filter(with_address(address)).len() > 0 {
        kept.lemma_filter_pred(with_address(address), 0);
        let m = kept.filter(with_address(address))[0];
        lemma_filter_member(kept, with_address(address), 0);
        let k = choose|k: int| 0 <= k < kept.len() && kept[k] == m;
        messages.lemma_filter_pred(without_address(address), k);
    }
}

/// A message stored pending, then sent, then confirmed: each stage changes
/// exactly its own fields. Sending sets status, hash and fee; confirming
/// sets status, height and time; everything else keeps its first value.
pub proof fn lemma_message_lifecycle(row: DbMessage, hash: String, fee: u64, c: Confirmation)
    requires
        row.status == MessageStatus::Pending,
        c.hash@ == hash@,
    ensures
        ({
            let sent = DbMessage { status: MessageStatus::Sent, hash: Some(hash), fee, ..row };
            let s1 = as_sent(row, sent);
            let s2 = as_confirmed(s1, c);
            &&& is_pending_copy(row, sent)
            &&& s1.status == MessageStatus::Sent && s1.hash == Some(hash) && s1.fee == fee
            &&& s1.direction == row.direction && s1.address == row.address
            &&& s1.timestamp == row.timestamp && s1.topoheight == row.topoheight
            &&& s1.asset == row.asset && s1.amount == row.amount && s1.message == row.message
            &&& is_confirmed_by(s1, c)
            &&& s2.status == MessageStatus::Confirmed
            &&& s2.topoheight == c.topoheight && s2.timestamp == c.timestamp
            &&& s2.hash == s1.hash && s2.fee == s1.fee
            &&& s2.direction == row.direction && s2.address == row.address
            &&& s2.asset == row.asset && s2.amount == row.amount && s2.message == row.message
        }),
{
}

} // verus!
