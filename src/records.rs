use vstd::prelude::*;

verus! {

/// Where a chat message stands on its way to the ledger.
#[derive(Clone, Copy, Debug, PartialEq, Eq, Structural)]
pub enum MessageStatus {
    Pending,
    Sent,
    Confirmed,
}

/// Whether a message was received or written by the local user.
#[derive(Clone, Copy, Debug, PartialEq, Eq, Structural)]
pub enum Direction {
    Incoming,
    Outgoing,
}

/// A chat message as it is persisted.
///
/// Amounts and fees are in atomic units of the asset; `hash` stays empty
/// until the carrying transaction has been broadcast.
#[derive(Clone, Debug, PartialEq, Eq)]
pub struct DbMessage {
    pub status: MessageStatus,
    pub direction: Direction,
    pub address: String,
    pub hash: Option<String>,
    pub fee: u64,
    pub timestamp: u64,
    pub topoheight: u64,
    pub asset: String,
    pub amount: u64,
    pub message: Option<String>,
}

/// The ledger's word that an outgoing transaction landed: its hash, and
/// the height and time at which it did.
#[derive(Clone, Debug, PartialEq, Eq)]
pub struct Confirmation {
    pub hash: String,
    pub topoheight: u64,
    pub timestamp: u64,
}

/// A named counterparty.
#[derive(Clone, Debug, PartialEq, Eq, Default)]
pub struct DbContact {
    pub name: String,
    pub address: String,
}

/// Request to delete the contact at `address`.
#[derive(Clone, Debug, PartialEq, Eq)]
pub struct DbRemoveContact {
    pub address: String,
}

/// A bare wallet address.
#[derive(Clone, Debug, PartialEq, Eq)]
pub struct DbAddress {
    pub address: String,
}

/// A password typed by the user.
#[derive(Clone, Debug, PartialEq, Eq)]
pub struct DbPassword {
    pub password: String,
}

/// Request to send `message` to `address`.
#[derive(Clone, Debug, PartialEq, Eq)]
pub struct TxSendMsg {
    pub message: String,
    pub address: String,
}

/// Where and when a transaction landed.
#[derive(Clone, Debug, PartialEq, Eq, Default)]
pub struct TxData {
    pub topoheight: u64,
    pub hash: String,
    pub timestamp: u64,
}

/// A batch of ledger notifications at a given height.
#[derive(Clone, Debug, PartialEq, Eq, Default)]
pub struct AppEvents {
    pub topoheight: u64,
    pub transactions: Vec<TxData>,
}

/// Name and password used to create or open a wallet.
#[derive(Clone, Copy, Debug, PartialEq, Eq)]
pub struct WalletCreateOpenArgs<'a> {
    pub name: &'a str,
    pub password: &'a str,
}

/// Size of the precomputed tables used to decrypt balances.
#[derive(Clone, Copy, Debug, PartialEq, Eq, Structural)]
pub enum TableSize {
    L1Low,
    L1Medium,
    L1Full,
}

/// Language of the recovery phrase.
#[derive(Clone, Copy, Debug, PartialEq, Eq, Structural)]
pub enum MnemonicLanguage {
    English,
    French,
    Italian,
    Spanish,
    Portuguese,
    Japanese,
    ChineseSimplified,
    Russian,
    Esperanto,
    Dutch,
    German,
}

/// Index of a language in the wallet engine's word-list table.
pub open spec fn language_index(l: MnemonicLanguage) -> nat {
    match l {
        MnemonicLanguage::English => 0,
        MnemonicLanguage::French => 1,
        MnemonicLanguage::Italian => 2,
        MnemonicLanguage::Spanish => 3,
        MnemonicLanguage::Portuguese => 4,
        MnemonicLanguage::Japanese => 5,
        MnemonicLanguage::ChineseSimplified => 6,
        MnemonicLanguage::Russian => 7,
        MnemonicLanguage::Esperanto => 8,
        MnemonicLanguage::Dutch => 9,
        MnemonicLanguage::German => 10,
    }
}

impl MnemonicLanguage {
    /// The word-list index the wallet engine expects for this language.
    pub fn convert(&self) -> (r: usize)
        ensures
            r == language_index(*self),
    {
        match self {
            MnemonicLanguage::English => 0,
            MnemonicLanguage::French => 1,
            MnemonicLanguage::Italian => 2,
            MnemonicLanguage::Spanish => 3,
            MnemonicLanguage::Portuguese => 4,
            MnemonicLanguage::Japanese => 5,
            MnemonicLanguage::ChineseSimplified => 6,
            MnemonicLanguage::Russian => 7,
            MnemonicLanguage::Esperanto => 8,
            MnemonicLanguage::Dutch => 9,
            MnemonicLanguage::German => 10,
        }
    }
}

/// A copy of an optional text.
pub fn copy_text(s: &Option<String>) -> (r: Option<String>)
    ensures
        r == *s,
{
    match s {
        Some(t) => Some(t.clone()),
        None => None,
    }
}

/// The characters of an optional text.
pub open spec fn text_view(s: Option<String>) -> Option<Seq<char>> {
    match s {
        Some(t) => Some(t@),
        None => None,
    }
}

/// Whether two optional texts hold the same characters.
pub fn same_text(a: &Option<String>, b: &Option<String>) -> (r: bool)
    ensures
        r == (text_view(*a) == text_view(*b)),
{
    match (a, b) {
        (Some(x), Some(y)) => *x == *y,
        (None, None) => true,
        _ => false,
    }
}

impl DbMessage {
    /// A field-for-field copy.
    pub fn duplicate(&self) -> (r: DbMessage)
        ensures
            r == *self,
    {
        DbMessage {
            status: self.status,
            direction: self.direction,
            address: self.address.clone(),
            hash: copy_text(&self.hash),
            fee: self.fee,
            timestamp: self.timestamp,
            topoheight: self.topoheight,
            asset: self.asset.clone(),
            amount: self.amount,
            message: copy_text(&self.message),
        }
    }
}

impl DbContact {
    /// A field-for-field copy.
    pub fn duplicate(&self) -> (r: DbContact)
        ensures
            r == *self,
    {
        DbContact { name: self.name.clone(), address: self.address.clone() }
    }
}

} // verus!
