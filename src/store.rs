use vstd::prelude::*;

use crate::records::{text_view, Confirmation, DbContact, DbMessage, MessageStatus};

verus! {

/// Why a new contact was refused, in the order the checks run.
#[derive(Clone, Copy, Debug, PartialEq, Eq, Structural)]
pub enum ContactError {
    EmptyField,
    SelfAddress,
    DuplicateName,
    DuplicateAddress,
}

/// What a cascading contact removal did.
#[derive(Clone, Copy, Debug, PartialEq, Eq, Structural)]
pub struct RemoveOutcome {
    pub messages_deleted: usize,
    pub contact_deleted: bool,
}

/// Whether some contact in `contacts` carries the name `name`.
pub open spec fn has_name(contacts: Seq<DbContact>, name: Seq<char>) -> bool {
    exists|i: int| 0 <= i < contacts.len() && #[trigger] contacts[i].name@ == name
}

/// Whether some contact in `contacts` sits at `address`.
pub open spec fn has_address(contacts: Seq<DbContact>, address: Seq<char>) -> bool {
    exists|i: int| 0 <= i < contacts.len() && #[trigger] contacts[i].address@ == address
}

/// Names are unique, and so are addresses.
pub open spec fn contacts_unique(contacts: Seq<DbContact>) -> bool {
    forall|i: int, j: int|
        0 <= i < contacts.len() && 0 <= j < contacts.len() && i != j ==> {
            &&& #[trigger] contacts[i].name@ != #[trigger] contacts[j].name@
            &&& contacts[i].address@ != contacts[j].address@
        }
}

/// The first check that `c` fails against the stored `contacts`, for a wallet
/// whose own address is `own`; `None` when it may be added.
pub open spec fn contact_refusal(contacts: Seq<DbContact>, c: DbContact, own: Seq<char>) -> Option<
    ContactError,
> {
    if c.name@.len() == 0 || c.address@.len() == 0 {
        Some(ContactError::EmptyField)
    } else if c.address@ == own {
        Some(ContactError::SelfAddress)
    } else if has_name(contacts, c.name@) {
        Some(ContactError::DuplicateName)
    } else if has_address(contacts, c.address@) {
        Some(ContactError::DuplicateAddress)
    } else {
        None
    }
}

/// Holds of the messages exchanged with `address`.
pub open spec fn with_address(address: Seq<char>) -> spec_fn(DbMessage) -> bool {
    |m: DbMessage| m.address@ == address
}

/// Holds of the messages exchanged with anyone but `address`.
pub open spec fn without_address(address: Seq<char>) -> spec_fn(DbMessage) -> bool {
    |m: DbMessage| m.address@ != address
}

/// Holds of the contacts at any address but `address`.
pub open spec fn contact_elsewhere(address: Seq<char>) -> spec_fn(DbContact) -> bool {
    |c: DbContact| c.address@ != address
}

/// The length of the longest stored name.
pub open spec fn longest_name(contacts: Seq<DbContact>) -> nat
    decreases contacts.len(),
{
    if contacts.len() == 0 {
        0
    } else {
        let rest = longest_name(contacts.drop_last());
        let last = contacts.last().name@.len();
        if last > rest {
            last
        } else {
            rest
        }
    }
}

/// `n` tilde characters.
pub open spec fn tildes(n: nat) -> Seq<char> {
    Seq::new(n, |i: int| '~')
}

/// The name given to a contact created for an unknown sender at `address`:
/// the address itself, or, when that text is already some contact's name,
/// the address followed by more tildes than the longest stored name has
/// characters, which no stored name can equal.
pub open spec fn implicit_name(contacts: Seq<DbContact>, address: Seq<char>) -> Seq<char> {
    if has_name(contacts, address) {
        address + tildes(longest_name(contacts) + 1)
    } else {
        address
    }
}

/// `after` is `before` once a message with the counterparty at `address` is
/// stored: an unknown address other than the wallet's own (`own`) gets a new
/// contact, appended with its implicit name; otherwise nothing changes.
pub open spec fn contacts_after_message(
    before: Seq<DbContact>,
    after: Seq<DbContact>,
    address: Seq<char>,
    own: Seq<char>,
) -> bool {
    if address == own || has_address(before, address) {
        after == before
    } else {
        &&& after.len() == before.len() + 1
        &&& after.subrange(0, before.len() as int) == before
        &&& after.last().address@ == address
        &&& after.last().name@ == implicit_name(before, address)
    }
}

/// `row` is the still-pending copy of the outgoing message `sent`: same
/// counterparty, same height, same text.
pub open spec fn is_pending_copy(row: DbMessage, sent: DbMessage) -> bool {
    &&& row.status == MessageStatus::Pending
    &&& row.address@ == sent.address@
    &&& row.topoheight == sent.topoheight
    &&& text_view(row.message) == text_view(sent.message)
}

/// Holds of the pending copies of `sent`.
pub open spec fn pending_copy_of(sent: DbMessage) -> spec_fn(DbMessage) -> bool {
    |row: DbMessage| is_pending_copy(row, sent)
}

/// Holds of the sent messages that `c` confirms.
pub open spec fn confirmed_by(c: Confirmation) -> spec_fn(DbMessage) -> bool {
    |row: DbMessage| is_confirmed_by(row, c)
}

/// `row` once its transaction went out: status, hash and fee change.
pub open spec fn as_sent(row: DbMessage, sent: DbMessage) -> DbMessage {
    DbMessage { status: MessageStatus::Sent, hash: sent.hash, fee: sent.fee, ..row }
}

/// `row` is a sent message carried by the confirmed transaction.
pub open spec fn is_confirmed_by(row: DbMessage, c: Confirmation) -> bool {
    &&& row.status == MessageStatus::Sent
    &&& text_view(row.hash) == Some(c.hash@)
}

/// `row` once its transaction is on the ledger: status, height and time change.
pub open spec fn as_confirmed(row: DbMessage, c: Confirmation) -> DbMessage {
    DbMessage {
        status: MessageStatus::Confirmed,
        topoheight: c.topoheight,
        timestamp: c.timestamp,
        ..row
    }
}

/// The persisted contacts and messages.
pub struct ChatStore {
    contacts: Vec<DbContact>,
    messages: Vec<DbMessage>,
}

impl ChatStore {
    /// The stored contacts, in the order they were added.
    pub closed spec fn contacts(&self) -> Seq<DbContact> {
        self.contacts@
    }

    /// The stored messages, in the order they were stored.
    pub closed spec fn messages(&self) -> Seq<DbMessage> {
        self.messages@
    }

    pub open spec fn wf(&self) -> bool {
        contacts_unique(self.contacts())
    }

    /// An empty store.
    pub fn new() -> (r: Self)
        ensures
            r.wf(),
            r.contacts() == Seq::<DbContact>::empty(),
            r.messages() == Seq::<DbMessage>::empty(),
    {
        ChatStore { contacts: Vec::new(), messages: Vec::new() }
    }

    /// Whether a stored contact carries `name`.
    fn name_taken(&self, name: &String) -> (r: bool)
        ensures
            r == has_name(self.contacts(), name@),
    {
        let mut i: usize = 0;
        while i < self.contacts.len()
            invariant
                i <= self.contacts@.len(),
                forall|j: int| 0 <= j < i ==> #[trigger] self.contacts@[j].name@ != name@,
            decreases self.contacts@.len() - i,
        {
            if self.contacts[i].name == *name {
                return true;
            }
            i = i + 1;
        }
        false
    }

    /// Whether a stored contact sits at `address`.
    fn address_taken(&self, address: &String) -> (r: bool)
        ensures
            r == has_address(self.contacts(), address@),
    {
        let mut i: usize = 0;
        while i < self.contacts.len()
            invariant
                i <= self.contacts@.len(),
                forall|j: int| 0 <= j < i ==> #[trigger] self.contacts@[j].address@ != address@,
            decreases self.contacts@.len() - i,
        {
            if self.contacts[i].address == *address {
                return true;
            }
            i = i + 1;
        }
        false
    }

    /// Adds `new_contact` after checking, in this order, that both fields are
    /// filled, that the address is not the wallet's own (`wallet_address`),
    /// and that neither the name nor the address is stored already.
    pub fn db_add_contact(&mut self, new_contact: DbContact, wallet_address: &String) -> (r: Result<
        (),
        ContactError,
    >)
        requires
            old(self).wf(),
        ensures
            final(self).wf(),
            final(self).messages() == old(self).messages(),
            match contact_refusal(old(self).contacts(), new_contact, wallet_address@) {
                Some(e) => r == Err::<(), ContactError>(e) && final(self).contacts() == old(
                    self,
                ).contacts(),
                None => r is Ok && final(self).contacts() == old(self).contacts().push(new_contact),
            },
    {
        if new_contact.name.as_str().is_empty() || new_contact.address.as_str().is_empty() {
            return Err(ContactError::EmptyField);
        }
        if new_contact.address == *wallet_address {
            return Err(ContactError::SelfAddress);
        }
        if self.name_taken(&new_contact.name) {
            return Err(ContactError::DuplicateName);
        }
        if self.address_taken(&new_contact.address) {
            return Err(ContactError::DuplicateAddress);
        }
        self.contacts.push(new_contact);
        Ok(())
    }

    /// The stored contacts, in the order they were added.
    pub fn db_read_contacts(&self) -> (r: Vec<DbContact>)
        ensures
            r@ == self.contacts(),
    {
        let mut out: Vec<DbContact> = Vec::new();
        let mut i: usize = 0;
        while i < self.contacts.len()
            invariant
                i <= self.contacts@.len(),
                out@ == self.contacts@.take(i as int),
            decreases self.contacts@.len() - i,
        {
            out.push(self.contacts[i].duplicate());
            i = i + 1;
            assert(out@ =~= self.contacts@.take(i as int));
        }
        assert(self.contacts@.take(i as int) =~= self.contacts@);
        out
    }

    /// The messages exchanged with `address`, in the order they were stored.
    pub fn db_read_messages(&self, address: &String) -> (r: Vec<DbMessage>)
        ensures
            r@ == self.messages().filter(with_address(address@)),
    {
        let ghost keep = with_address(address@);
        let mut out: Vec<DbMessage> = Vec::new();
        let mut i: usize = 0;
        while i < self.messages.len()
            invariant
                i <= self.messages@.len(),
                keep == with_address(address@),
                out@ == self.messages@.take(i as int).filter(keep),
            decreases self.messages@.len() - i,
        {
            proof {
                lemma_filter_step(self.messages@, keep, i as int);
            }
            if self.messages[i].address == *address {
                out.push(self.messages[i].duplicate());
            }
            i = i + 1;
        }
        assert(self.messages@.take(i as int) =~= self.messages@);
        out
    }

    /// Deletes the messages exchanged with `address`, then the contact at
    /// `address`; both steps always run, and each reports what it did.
    pub fn db_remove_contact(&mut self, address: &String) -> (r: RemoveOutcome)
        requires
            old(self).wf(),
        ensures
            final(self).wf(),
            final(self).messages() == old(self).messages().filter(without_address(address@)),
            final(self).contacts() == old(self).contacts().filter(contact_elsewhere(address@)),
            r.messages_deleted == old(self).messages().len() - final(self).messages().len(),
            r.contact_deleted == has_address(old(self).contacts(), address@),
    {
        let ghost drop_msg = without_address(address@);
        let ghost drop_contact = contact_elsewhere(address@);
        let mut kept: Vec<DbMessage> = Vec::new();
        let mut i: usize = 0;
        while i < self.messages.len()
            invariant
                i <= self.messages@.len(),
                drop_msg == without_address(address@),
                kept@ == self.messages@.take(i as int).filter(drop_msg),
                kept@.len() <= i,
            decreases self.messages@.len() - i,
        {
            proof {
                lemma_filter_step(self.messages@, drop_msg, i as int);
            }
            if self.messages[i].address != *address {
                kept.push(self.messages[i].duplicate());
            }
            i = i + 1;
        }
        assert(self.messages@.take(i as int) =~= self.messages@);
        let deleted = self.messages.len() - kept.len();

        let ghost before = self.contacts@;
        let mut kept_contacts: Vec<DbContact> = Vec::new();
        let mut found = false;
        let mut j: usize = 0;
        while j < self.contacts.len()
            invariant
                j <= self.contacts@.len(),
                before == self.contacts@,
                contacts_unique(before),
                drop_contact == contact_elsewhere(address@),
                kept_contacts@ == before.take(j as int).filter(drop_contact),
                found == has_address(before.take(j as int), address@),
            decreases self.contacts@.len() - j,
        {
            proof {
                lemma_filter_step(before, drop_contact, j as int);
            }
            if self.contacts[j].address != *address {
                kept_contacts.push(self.contacts[j].duplicate());
                proof {
                    if has_address(before.take(j + 1), address@) {
                        let k = choose|k: int|
                            0 <= k < j + 1 && #[trigger] before.take(j + 1)[k].address@ == address@;
                        assert(before.take(j as int)[k].address@ == address@);
                    }
                }
            } else {
                found = true;
                assert(before.take(j + 1)[j as int].address@ == address@);
            }
            proof {
                if has_address(before.take(j as int), address@) {
                    let k = choose|k: int|
                        0 <= k < j && #[trigger] before.take(j as int)[k].address@ == address@;
                    assert(before.take(j + 1)[k].address@ == address@);
                }
            }
            j = j + 1;
        }
        assert(before.take(j as int) =~= before);
        proof {
            lemma_filter_keeps_unique(before, drop_contact);
        }
        self.messages = kept;
        self.contacts = kept_contacts;
        RemoveOutcome { messages_deleted: deleted, contact_deleted: found }
    }

    /// The length of the longest stored name.
    fn longest_name_len(&self) -> (r: usize)
        ensures
            r == longest_name(self.contacts()),
    {
        let mut longest: usize = 0;
        let mut i: usize = 0;
        while i < self.contacts.len()
            invariant
                i <= self.contacts@.len(),
                longest == longest_name(self.contacts@.take(i as int)),
            decreases self.contacts@.len() - i,
        {
            assert(self.contacts@.take(i + 1).drop_last() =~= self.contacts@.take(i as int));
            let n = self.contacts[i].name.as_str().unicode_len();
            if n > longest {
                longest = n;
            }
            i = i + 1;
        }
        assert(self.contacts@.take(i as int) =~= self.contacts@);
        longest
    }

    /// Stores `message`, first creating a contact for its counterparty when
    /// the address is unknown and is not the wallet's own (`wallet_address`).
    /// The new contact is named after the address, made unique if that text
    /// is already a name.
    pub fn db_store_init_message(&mut self, message: DbMessage, wallet_address: &String)
        requires
            old(self).wf(),
        ensures
            final(self).wf(),
            contacts_after_message(
                old(self).contacts(),
                final(self).contacts(),
                message.address@,
                wallet_address@,
            ),
            message.address@ != wallet_address@ ==> has_address(
                final(self).contacts(),
                message.address@,
            ),
            final(self).messages() == old(self).messages().push(message),
    {
        let ghost before = self.contacts@;
        if message.address != *wallet_address && !self.address_taken(&message.address) {
            let mut name = message.address.clone();
            if self.name_taken(&message.address) {
                let longest = self.longest_name_len();
                proof {
                    reveal_strlit("~");
                }
                name.append("~");
                assert("~"@ =~= seq!['~']);
                assert(name@ =~= message.address@ + tildes(1));
                let mut k: usize = 0;
                while k < longest
                    invariant
                        k <= longest,
                        name@ == message.address@ + tildes((k + 1) as nat),
                    decreases longest - k,
                {
                    proof {
                        reveal_strlit("~");
                    }
                    name.append("~");
                    assert("~"@ =~= seq!['~']);
                    assert(message.address@ + tildes((k + 2) as nat) =~= message.address@ + tildes(
                        (k + 1) as nat,
                    ) + "~"@);
                    k = k + 1;
                }
            }
            proof {
                lemma_implicit_name_free(before, message.address@);
            }
            let c = DbContact { name, address: message.address.clone() };
            self.contacts.push(c);
            assert(self.contacts@.subrange(0, before.len() as int) =~= before);
            assert(self.contacts@.last() == c);
            assert forall|i: int, j: int|
                0 <= i < self.contacts@.len() && 0 <= j < self.contacts@.len() && i != j implies {
                &&& #[trigger] self.contacts@[i].name@ != #[trigger] self.contacts@[j].name@
                &&& self.contacts@[i].address@ != self.contacts@[j].address@
            } by {
                if i < before.len() && j < before.len() {
                    assert(self.contacts@[i] == before[i] && self.contacts@[j] == before[j]);
                } else if i < before.len() {
                    assert(self.contacts@[i] == before[i]);
                } else {
                    assert(self.contacts@[j] == before[j]);
                }
            }
            assert(contacts_unique(self.contacts@));
            assert(self.contacts@[before.len() as int].address@ == message.address@);
        }
        self.messages.push(message);
    }

    /// Marks the pending copies of `sent` (same counterparty, height and text)
    /// as sent, with the hash and fee that `sent` carries; returns how many
    /// rows changed.
    pub fn db_update_status_fee(&mut self, sent: &DbMessage) -> (r: usize)
        requires
            old(self).wf(),
        ensures
            final(self).wf(),
            final(self).contacts() == old(self).contacts(),
            final(self).messages().len() == old(self).messages().len(),
            forall|i: int|
                0 <= i < old(self).messages().len() ==> #[trigger] final(self).messages()[i] == if is_pending_copy(
                    old(self).messages()[i],
                    *sent,
                ) {
                    as_sent(old(self).messages()[i], *sent)
                } else {
                    old(self).messages()[i]
                },
            r == old(self).messages().filter(pending_copy_of(*sent)).len(),
    {
        let ghost pre = self.messages@;
        let ghost keep = pending_copy_of(*sent);
        let mut changed: usize = 0;
        let mut i: usize = 0;
        while i < self.messages.len()
            invariant
                i <= self.messages@.len(),
                self.messages@.len() == pre.len(),
                self.contacts@ == old(self).contacts@,
                keep == pending_copy_of(*sent),
                changed == pre.take(i as int).filter(keep).len(),
                changed <= i,
                forall|k: int|
                    0 <= k < i ==> #[trigger] self.messages@[k] == if is_pending_copy(pre[k], *sent) {
                        as_sent(pre[k], *sent)
                    } else {
                        pre[k]
                    },
                forall|k: int| i <= k < pre.len() ==> #[trigger] self.messages@[k] == pre[k],
            decreases pre.len() - i,
        {
            proof {
                lemma_filter_step(pre, keep, i as int);
            }
            let row = &self.messages[i];
            if row.status == MessageStatus::Pending && row.address == sent.address && row.topoheight
                == sent.topoheight && crate::records::same_text(&row.message, &sent.message) {
                let updated = DbMessage {
                    status: MessageStatus::Sent,
                    hash: crate::records::copy_text(&sent.hash),
                    fee: sent.fee,
                    ..row.duplicate()
                };
                self.messages.set(i, updated);
                changed = changed + 1;
            }
            i = i + 1;
        }
        assert(pre.take(i as int) =~= pre);
        changed
    }

    /// Marks the sent messages carried by the confirmed transaction as
    /// confirmed, at the height and time the ledger gives; returns how many
    /// rows changed.
    pub fn db_update_status_topoheight(&mut self, confirmation: &Confirmation) -> (r: usize)
        requires
            old(self).wf(),
        ensures
            final(self).wf(),
            final(self).contacts() == old(self).contacts(),
            final(self).messages().len() == old(self).messages().len(),
            forall|i: int|
                0 <= i < old(self).messages().len() ==> #[trigger] final(self).messages()[i] == if is_confirmed_by(
                    old(self).messages()[i],
                    *confirmation,
                ) {
                    as_confirmed(old(self).messages()[i], *confirmation)
                } else {
                    old(self).messages()[i]
                },
            r == old(self).messages().filter(confirmed_by(*confirmation)).len(),
    {
        let ghost pre = self.messages@;
        let ghost keep = confirmed_by(*confirmation);
        let mut changed: usize = 0;
        let mut i: usize = 0;
        while i < self.messages.len()
            invariant
                i <= self.messages@.len(),
                self.messages@.len() == pre.len(),
                self.contacts@ == old(self).contacts@,
                keep == confirmed_by(*confirmation),
                changed == pre.take(i as int).filter(keep).len(),
                changed <= i,
                forall|k: int|
                    0 <= k < i ==> #[trigger] self.messages@[k] == if is_confirmed_by(
                        pre[k],
                        *confirmation,
                    ) {
                        as_confirmed(pre[k], *confirmation)
                    } else {
                        pre[k]
                    },
                forall|k: int| i <= k < pre.len() ==> #[trigger] self.messages@[k] == pre[k],
            decreases pre.len() - i,
        {
            proof {
                lemma_filter_step(pre, keep, i as int);
            }
            let row = &self.messages[i];
            let carried = match &row.hash {
                Some(h) => *h == confirmation.hash,
                None => false,
            };
            if row.status == MessageStatus::Sent && carried {
                let updated = DbMessage {
                    status: MessageStatus::Confirmed,
                    topoheight: confirmation.topoheight,
                    timestamp: confirmation.timestamp,
                    ..row.duplicate()
                };
                self.messages.set(i, updated);
                changed = changed + 1;
            }
            i = i + 1;
        }
        assert(pre.take(i as int) =~= pre);
        changed
    }
}

/// Filtering keeps names and addresses unique.
proof fn lemma_filter_keeps_unique(contacts: Seq<DbContact>, keep: spec_fn(DbContact) -> bool)
    requires
        contacts_unique(contacts),
    ensures
        contacts_unique(contacts.filter(keep)),
    decreases contacts.len(),
{
    reveal(Seq::filter);
    if contacts.len() > 0 {
        let rest = contacts.drop_last();
        assert forall|i: int, j: int|
            0 <= i < rest.len() && 0 <= j < rest.len() && i != j implies {
            &&& #[trigger] rest[i].name@ != #[trigger] rest[j].name@
            &&& rest[i].address@ != rest[j].address@
        } by {
            assert(contacts[i] == rest[i] && contacts[j] == rest[j]);
        }
        lemma_filter_keeps_unique(rest, keep);
        let f = rest.filter(keep);
        if !keep(contacts.last()) {
            assert(contacts.filter(keep) == f);
        } else {
            let g = f.push(contacts.last());
            assert(contacts.filter(keep) == g);
            assert forall|i: int| 0 <= i < f.len() implies {
                &&& #[trigger] f[i].name@ != contacts.last().name@
                &&& f[i].address@ != contacts.last().address@
            } by {
                rest.lemma_filter_pred(keep, i);
                assert(rest.filter(keep)[i] == f[i]);
                assert(rest.filter(keep).len() <= rest.len()) by {
                    rest.lemma_filter_len(keep);
                }
                lemma_filter_member(rest, keep, i);
                let k = choose|k: int| 0 <= k < rest.len() && rest[k] == f[i];
                assert(contacts[k] == rest[k]);
                assert(contacts[contacts.len() - 1] == contacts.last());
            }
            assert forall|i: int, j: int|
                0 <= i < g.len() && 0 <= j < g.len() && i != j implies {
                &&& #[trigger] g[i].name@ != #[trigger] g[j].name@
                &&& g[i].address@ != g[j].address@
            } by {
                assert(g[f.len() as int] == contacts.last());
                if i < f.len() && j < f.len() {
                    assert(g[i] == f[i] && g[j] == f[j]);
                } else if i < f.len() {
                    assert(g[i] == f[i]);
                    assert(f[i].name@ != contacts.last().name@);
                } else {
                    assert(g[j] == f[j]);
                    assert(f[j].name@ != contacts.last().name@);
                }
            }
        }
    }
}

/// No stored name is longer than `longest_name`.
proof fn lemma_longest_name(contacts: Seq<DbContact>, i: int)
    requires
        0 <= i < contacts.len(),
    ensures
        contacts[i].name@.len() <= longest_name(contacts),
    decreases contacts.len(),
{
    if i < contacts.len() - 1 {
        lemma_longest_name(contacts.drop_last(), i);
        assert(contacts.drop_last()[i] == contacts[i]);
    }
}

/// The implicit name of an unknown sender is no stored contact's name.
pub proof fn lemma_implicit_name_free(contacts: Seq<DbContact>, address: Seq<char>)
    ensures
        !has_name(contacts, implicit_name(contacts, address)),
{
    if has_name(contacts, address) {
        let name = implicit_name(contacts, address);
        assert(name.len() == address.len() + longest_name(contacts) + 1);
        assert forall|i: int| 0 <= i < contacts.len() implies #[trigger] contacts[i].name@ != name by {
            lemma_longest_name(contacts, i);
        }
    }
}

/// Filtering one more element of `s` appends it when it is kept.
pub proof fn lemma_filter_step<A>(s: Seq<A>, keep: spec_fn(A) -> bool, i: int)
    requires
        0 <= i < s.len(),
    ensures
        s.take(i + 1).filter(keep) == if keep(s[i]) {
            s.take(i).filter(keep).push(s[i])
        } else {
            s.take(i).filter(keep)
        },
{
    reveal(Seq::filter);
    assert(s.take(i + 1).drop_last() =~= s.take(i));
}

/// Every element that a filter keeps comes from the filtered sequence.
pub proof fn lemma_filter_member<A>(s: Seq<A>, keep: spec_fn(A) -> bool, i: int)
    requires
        0 <= i < s.filter(keep).len(),
    ensures
        exists|k: int| 0 <= k < s.len() && s[k] == s.filter(keep)[i],
    decreases s.len(),
{
    reveal(Seq::filter);
    let rest = s.drop_last();
    let f = rest.filter(keep);
    if keep(s.last()) && i == f.len() {
        assert(s[s.len() - 1] == s.filter(keep)[i]);
    } else {
        lemma_filter_member(rest, keep, i);
        let k = choose|k: int| 0 <= k < rest.len() && rest[k] == rest.filter(keep)[i];
        assert(s[k] == s.filter(keep)[i]);
    }
}

} // verus!
