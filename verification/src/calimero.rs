//! What the game knows of the network it stores its results on: how a node
//! is configured, what it reports, and how account names and transaction
//! hashes look.

use vstd::prelude::*;
use vstd::string::{StrSliceExecFns, StringExecFns, StringSliceAdditionalSpecFns};
use vstd::utf8::{decode_utf8, encode_utf8, is_char_boundary};
use crate::text::byte_len;
use crate::utils::{MAX_NAME_BYTES, has_name_chars_only, name_chars_only};

verus! {

/// How the client reaches the network.
#[derive(Debug, PartialEq, Eq)]
pub struct CalimeroConfig {
    /// The NEAR network: `testnet` or `mainnet`.
    pub near_network: String,
    /// The account of the contract that stores the games.
    pub contract_account: String,
    /// The context of this game.
    pub context_id: String,
    /// The address of the node.
    pub node_endpoint: String,
    /// Whether stored data is encrypted.
    pub enable_encryption: bool,
}

impl Clone for CalimeroConfig {
    fn clone(&self) -> (copy: Self)
        ensures
            copy.near_network@ == self.near_network@,
            copy.contract_account@ == self.contract_account@,
            copy.context_id@ == self.context_id@,
            copy.node_endpoint@ == self.node_endpoint@,
            copy.enable_encryption == self.enable_encryption,
    {
        CalimeroConfig {
            near_network: self.near_network.clone(),
            contract_account: self.contract_account.clone(),
            context_id: self.context_id.clone(),
            node_endpoint: self.node_endpoint.clone(),
            enable_encryption: self.enable_encryption,
        }
    }
}

impl Default for CalimeroConfig {
    /// The configuration of a local node on the test network.
    fn default() -> (config: CalimeroConfig)
        ensures
            config.near_network@ == "testnet"@,
            config.contract_account@ == "guess-number-game.testnet"@,
            config.context_id@ == "guess-number-context"@,
            config.node_endpoint@ == "http://localhost:2428"@,
            config.enable_encryption,
    {
        CalimeroConfig {
            near_network: String::from_str("testnet"),
            contract_account: String::from_str("guess-number-game.testnet"),
            context_id: String::from_str("guess-number-context"),
            node_endpoint: String::from_str("http://localhost:2428"),
            enable_encryption: true,
        }
    }
}

/// What a node reports of its connection.
#[derive(Debug, PartialEq, Eq)]
pub struct CalimeroHealthStatus {
    pub connected: bool,
    pub context_active: bool,
    pub near_network: String,
    pub block_height: u64,
    pub node_endpoint: String,
}

impl CalimeroHealthStatus {
    /// Whether the node can be used: it is connected and its context is
    /// active.
    pub fn is_healthy(&self) -> (healthy: bool)
        ensures
            healthy == (self.connected && self.context_active),
    {
        self.connected && self.context_active
    }
}

/// What is known of the context of the game.
#[derive(Debug, PartialEq, Eq)]
pub struct GameContextInfo {
    pub context_id: String,
    pub owner: String,
    pub participants: Vec<String>,
    pub created_at: u64,
    pub game_count: u64,
}

/// What became of a transaction.
#[derive(Debug, PartialEq, Eq)]
pub struct TransactionResult {
    pub tx_hash: String,
    pub block_height: u64,
    pub gas_used: u64,
    pub success: bool,
    pub timestamp: u64,
}

/// The kinds of storage that results can go to.
#[derive(Clone, Copy, Debug, PartialEq, Eq)]
pub enum StorageProviderKind {
    /// The contract on the network.
    Near,
    /// A stand-in that keeps results in memory.
    Mock,
}

/// Chooses the storage that results go to.
#[derive(Clone, Copy, Debug, PartialEq, Eq)]
pub struct StorageProviderFactory;

impl StorageProviderFactory {
    /// The kind of storage that a name stands for: `near` and `calimero` for
    /// the network, `mock` and `test` for the stand-in.
    pub open spec fn kind_named(name: Seq<char>) -> Option<StorageProviderKind> {
        if name == "near"@ || name == "calimero"@ {
            Some(StorageProviderKind::Near)
        } else if name == "mock"@ || name == "test"@ {
            Some(StorageProviderKind::Mock)
        } else {
            None
        }
    }

    /// The kind of storage that `provider_type` names, or an error that
    /// quotes the unknown name.
    pub fn provider_kind(provider_type: &str) -> (result: Result<
        StorageProviderKind,
        crate::game_error::GameError,
    >)
        ensures
            match result {
                Ok(kind) => StorageProviderFactory::kind_named(provider_type@) == Some(kind),
                Err(e) => {
                    &&& StorageProviderFactory::kind_named(provider_type@) is None
                    &&& e matches crate::game_error::GameError::InvalidConfiguration(why)
                    &&& why@ == "Unknown storage provider: "@ + provider_type@
                },
            },
    {
        if crate::text::same_text(provider_type, "near") || crate::text::same_text(
            provider_type,
            "calimero",
        ) {
            Ok(StorageProviderKind::Near)
        } else if crate::text::same_text(provider_type, "mock") || crate::text::same_text(
            provider_type,
            "test",
        ) {
            Ok(StorageProviderKind::Mock)
        } else {
            Err(
                crate::game_error::GameError::InvalidConfiguration(
                    String::from_str("Unknown storage provider: ").concat(provider_type),
                ),
            )
        }
    }
}

/// Whether `id` has the form of a NEAR account name: 2 to 64 bytes, made of
/// letters, numbers, `-`, `_` and `.` only, and neither starting nor ending
/// with `-`.
pub open spec fn valid_near_account_id(id: Seq<char>) -> bool {
    &&& 2 <= encode_utf8(id).len() <= MAX_NAME_BYTES
    &&& id.len() > 0
    &&& name_chars_only(id, true)
    &&& id[0] != '-'
    &&& id[id.len() - 1] != '-'
}

/// Whether `account_id` has the form of a NEAR account name.
pub fn is_valid_near_account_id(account_id: &str) -> (valid: bool)
    ensures
        valid == valid_near_account_id(account_id@),
{
    let bytes: usize = byte_len(account_id);
    if bytes < 2 || bytes > MAX_NAME_BYTES {
        return false;
    }
    let n: usize = account_id.unicode_len();
    if n == 0 {
        return false;
    }
    if !has_name_chars_only(account_id, true) {
        return false;
    }
    account_id.get_char(0) != '-' && account_id.get_char(n - 1) != '-'
}

/// The base cost of a transaction, in gas.
pub const BASE_GAS: u64 = 2_000_000_000_000;

/// The cost of one byte of data, in gas.
pub const GAS_PER_BYTE: u64 = 1000;

/// The gas that storing `data_size` bytes is estimated to cost: the base cost
/// and [`GAS_PER_BYTE`] for each byte, or the largest 64-bit number where
/// that does not fit.
pub open spec fn gas_cost(data_size: nat) -> nat {
    if BASE_GAS + data_size * GAS_PER_BYTE <= u64::MAX {
        (BASE_GAS + data_size * GAS_PER_BYTE) as nat
    } else {
        u64::MAX as nat
    }
}

/// Estimates the gas for storing a record whose serialized form has
/// `data_size` bytes.
pub fn estimate_gas_cost(data_size: u64) -> (gas: u64)
    ensures
        gas == gas_cost(data_size as nat),
{
    let data_gas: u128 = crate::ratio::wide_product(data_size, GAS_PER_BYTE);
    let wide: u128 = (BASE_GAS as u128) + data_gas;
    if wide <= u64::MAX as u128 {
        wide as u64
    } else {
        u64::MAX
    }
}

/// A transaction hash as it is shown: the whole hash where it has at most 16
/// bytes, else its first 8 bytes, three dots and its last 8 bytes.
pub open spec fn shown_hash(hash: Seq<char>) -> Seq<char> {
    let bytes = encode_utf8(hash);
    if bytes.len() > 16 {
        decode_utf8(bytes.subrange(0, 8)) + "..."@ + decode_utf8(
            bytes.subrange(bytes.len() - 8, bytes.len() as int),
        )
    } else {
        hash
    }
}

/// Whether a hash can be cut for showing: a hash of more than 16 bytes must
/// not have a character that straddles its 8th byte from either end.
pub open spec fn can_be_shown(hash: Seq<char>) -> bool {
    let bytes = encode_utf8(hash);
    bytes.len() > 16 ==> is_char_boundary(bytes, 8) && is_char_boundary(bytes, bytes.len() - 8)
}

/// Shortens a transaction hash for showing.
pub fn format_tx_hash(tx_hash: &str) -> (shown: String)
    requires
        can_be_shown(tx_hash@),
    ensures
        shown@ == shown_hash(tx_hash@),
{
    broadcast use vstd::utf8::encode_utf8_decode_utf8;

    let len: usize = byte_len(tx_hash);
    if len > 16 {
        let (head, _) = tx_hash.split_at(8);
        let (_, tail) = tx_hash.split_at(len - 8);
        proof {
            assert(head@ == decode_utf8(encode_utf8(head@)));
            assert(tail@ == decode_utf8(encode_utf8(tail@)));
        }
        String::from_str(head).concat("...").concat(tail)
    } else {
        tx_hash.to_owned()
    }
}

/// Whether a hash can be cut for showing, decided at run time.
pub fn can_format_tx_hash(tx_hash: &str) -> (yes: bool)
    ensures
        yes == can_be_shown(tx_hash@),
{
    let len: usize = byte_len(tx_hash);
    if len > 16 {
        tx_hash.is_char_boundary(8) && tx_hash.is_char_boundary(len - 8)
    } else {
        true
    }
}

} // verus!
