use vstd::prelude::*;

use crate::records::DbMessage;
use crate::store::{as_sent, contacts_after_message, is_pending_copy, ChatStore};
use crate::sync::{carries_message, mark_sent, message_transfers, outgoing_message, pending_row};
use crate::wallet::{ChatWallet, SummaryTransaction, Transfer, WalletError};

verus! {

/// The application's shared state: the open wallet session, if any, and the
/// persisted store. Built once at startup and passed by reference.
pub struct AppContext<T> {
    pub wallet: Option<ChatWallet<T>>,
    pub store: ChatStore,
}

/// Whether the recovery phrase may be shown.
#[derive(Clone, Copy, Debug, PartialEq, Eq, Structural)]
pub enum SeedAccess {
    Granted,
    WrongPassword,
    WalletNotInitialized,
}

impl<T> AppContext<T> {
    pub open spec fn wf(&self) -> bool {
        &&& self.store.wf()
        &&& self.wallet matches Some(w) ==> w.wf()
    }

    /// No wallet yet, and an empty store.
    pub fn new() -> (r: Self)
        ensures
            r.wf(),
            r.wallet is None,
            r.store.contacts().len() == 0,
            r.store.messages().len() == 0,
    {
        AppContext { wallet: None, store: ChatStore::new() }
    }

    /// Installs the session on a wallet that the engine opened; when the
    /// engine refused, fails with an authentication error and leaves the
    /// current handle as it was.
    pub fn open_wallet(&mut self, opened: Result<String, String>, chat_asset: String) -> (r: Result<
        (),
        WalletError,
    >)
        requires
            old(self).wf(),
        ensures
            final(self).wf(),
            final(self).store == old(self).store,
            match opened {
                Ok(address) => {
                    &&& r is Ok
                    &&& final(self).wallet matches Some(w) && w.is_fresh(address@, chat_asset@)
                },
                Err(e) => {
                    &&& r == Err::<(), WalletError>(WalletError::Auth(e))
                    &&& final(self).wallet == old(self).wallet
                },
            },
    {
        match ChatWallet::open_wallet(opened, chat_asset) {
            Ok(w) => {
                self.wallet = Some(w);
                Ok(())
            },
            Err(e) => Err(e),
        }
    }

    /// Installs the session on a wallet that the engine created or restored;
    /// when the engine refused, fails with a creation error and leaves the
    /// current handle as it was.
    pub fn restore_wallet(&mut self, created: Result<String, String>, chat_asset: String) -> (r:
        Result<(), WalletError>)
        requires
            old(self).wf(),
        ensures
            final(self).wf(),
            final(self).store == old(self).store,
            match created {
                Ok(address) => {
                    &&& r is Ok
                    &&& final(self).wallet matches Some(w) && w.is_fresh(address@, chat_asset@)
                },
                Err(e) => {
                    &&& r == Err::<(), WalletError>(WalletError::Creation(e))
                    &&& final(self).wallet == old(self).wallet
                },
            },
    {
        match ChatWallet::create_wallet(created, chat_asset) {
            Ok(w) => {
                self.wallet = Some(w);
                Ok(())
            },
            Err(e) => Err(e),
        }
    }

    /// Decides whether the recovery phrase may be shown: the typed password
    /// must match the stored one, and a wallet must be open.
    pub fn wallet_get_seed(&self, entered_password: &String, stored_password: &String) -> (r:
        SeedAccess)
        ensures
            entered_password@ != stored_password@ ==> r == SeedAccess::WrongPassword,
            entered_password@ == stored_password@ && self.wallet is None ==> r
                == SeedAccess::WalletNotInitialized,
            entered_password@ == stored_password@ && self.wallet is Some ==> r == SeedAccess::Granted,
    {
        if *entered_password != *stored_password {
            SeedAccess::WrongPassword
        } else if self.wallet.is_none() {
            SeedAccess::WalletNotInitialized
        } else {
            SeedAccess::Granted
        }
    }

    /// First step of sending `text` to `contact_address`: the pending row is
    /// stored before anything reaches the network, then the row and the
    /// transfers to build are returned. Without an open wallet nothing
    /// happens.
    pub fn begin_send(&mut self, contact_address: String, topoheight: u64, text: String) -> (r:
        Option<(DbMessage, Vec<Transfer>)>)
        requires
            old(self).wf(),
        ensures
            final(self).wf(),
            final(self).wallet == old(self).wallet,
            match old(self).wallet {
                None => r is None && final(self).store == old(self).store,
                Some(w) => {
                    let row = pending_row(contact_address, topoheight, text, w.chat_asset);
                    &&& r matches Some(out) && (out.0 == row && carries_message(
                        out.1@,
                        contact_address,
                        text,
                        w.chat_asset,
                    ))
                    &&& final(self).store.messages() == old(self).store.messages().push(row)
                    &&& contacts_after_message(
                        old(self).store.contacts(),
                        final(self).store.contacts(),
                        contact_address@,
                        w.address@,
                    )
                },
            },
    {
        match &self.wallet {
            None => None,
            Some(w) => {
                let transfers = message_transfers(&contact_address, &text, &w.chat_asset);
                let row = outgoing_message(contact_address, topoheight, text, w.chat_asset.clone());
                let stored = row.duplicate();
                self.store.db_store_init_message(stored, &w.address);
                Some((row, transfers))
            },
        }
    }

    /// Last step of a successful send: the pending copies of `pending` become
    /// sent, with the hash and fee of `summary`.
    pub fn finish_send(&mut self, pending: DbMessage, summary: &SummaryTransaction) -> (r: DbMessage)
        requires
            old(self).wf(),
        ensures
            final(self).wf(),
            final(self).wallet == old(self).wallet,
            final(self).store.contacts() == old(self).store.contacts(),
            r == (DbMessage {
                status: crate::records::MessageStatus::Sent,
                hash: Some(summary.hash),
                fee: summary.fee,
                ..pending
            }),
            final(self).store.messages().len() == old(self).store.messages().len(),
            forall|i: int|
                0 <= i < old(self).store.messages().len() ==> #[trigger] final(self).store.messages()[i]
                    == if is_pending_copy(old(self).store.messages()[i], r) {
                    as_sent(old(self).store.messages()[i], r)
                } else {
                    old(self).store.messages()[i]
                },
    {
        let sent = mark_sent(pending, summary);
        self.store.db_update_status_fee(&sent);
        sent
    }
}

} // verus!
