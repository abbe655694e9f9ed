use crate::weight::Weight;
use vstd::prelude::*;

verus! {

/// A call into one of the runtime's modules.
#[derive(Clone, Copy, Debug, PartialEq, Eq, Structural)]
pub enum Call {
    /// System: do nothing.
    Remark,
    /// Template: store a value.
    DoSomething(u32),
    /// Balances: move funds from the sender to `dest`.
    Transfer { dest: u64, amount: u128 },
    /// Sudo: hand the privileged key to another account.
    SetSudoKey(u64),
    /// A call addressed to a module index that the runtime does not hold.
    Unknown(u8),
}

/// The lifetime window of a transaction.
#[derive(Clone, Copy, Debug, PartialEq, Eq, Structural)]
pub enum Era {
    Immortal,
    /// Valid for blocks numbered `birth` up to, not including, `death`.
    Mortal { birth: u64, death: u64 },
}

/// A signed transaction; the signature itself is checked by the host.
#[derive(Clone, Copy, Debug, PartialEq, Eq, Structural)]
pub struct Transaction {
    pub sender: u64,
    pub nonce: u64,
    pub call: Call,
    pub era: Era,
    pub spec_version: u32,
    pub tx_version: u32,
    pub genesis_hash: u64,
    /// Declared upper bound on the cost of executing `call`.
    pub weight: Weight,
    /// Encoded length in bytes.
    pub length: u32,
}

/// A linear fee policy: `base + per_unit * x`.
#[derive(Clone, Copy, Debug, PartialEq, Eq, Structural)]
pub struct FeePolicy {
    pub base: u128,
    pub per_unit: u128,
}

/// The immutable configuration of a runtime instance.
#[derive(Clone, Copy, Debug, PartialEq, Eq, Structural)]
pub struct RuntimeConfig {
    pub spec_version: u32,
    pub tx_version: u32,
    pub genesis_hash: u64,
    pub max_block_weight: Weight,
    /// Fee on the declared computation weight.
    pub weight_fee: FeePolicy,
    /// Fee on the encoded length.
    pub length_fee: FeePolicy,
    /// The least balance an account must keep.
    pub existential_deposit: u128,
}

pub open spec fn linear_fee(p: FeePolicy, x: int) -> int {
    p.base + p.per_unit * x
}

/// The fee a transaction is charged: the weight policy on its declared
/// computation weight plus the length policy on its length.
pub open spec fn fee_of(cfg: RuntimeConfig, tx: Transaction) -> int {
    linear_fee(cfg.weight_fee, tx.weight.ref_time as int) + linear_fee(cfg.length_fee, tx.length as int)
}

} // verus!
