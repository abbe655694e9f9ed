use crate::genesis::EXISTENTIAL_DEPOSIT;
use crate::transaction::{FeePolicy, RuntimeConfig};
use crate::weight::Weight;
use vstd::prelude::*;

verus! {

pub const SPEC_VERSION: u32 = 0;
pub const TRANSACTION_VERSION: u32 = 1;
/// Two seconds of computation, in picoseconds.
pub const MAX_BLOCK_REF_TIME: u64 = 2_000_000_000_000;
/// Five mebibytes of proof.
pub const MAX_BLOCK_PROOF_SIZE: u64 = 5_242_880;

/// The identity and versions of this runtime.
pub struct RuntimeVersion {
    pub spec_name: String,
    pub impl_name: String,
    pub authoring_version: u32,
    pub spec_version: u32,
    pub impl_version: u32,
    pub transaction_version: u32,
    pub system_version: u8,
}

/// The runtime version as known to a node that runs it natively.
pub struct NativeVersion {
    pub runtime_version: RuntimeVersion,
    /// Other authoring versions this runtime can author blocks with.
    pub can_author_with: Vec<u32>,
}

pub fn version() -> (r: RuntimeVersion)
    ensures
        r.spec_name@ == "pez-minimal-template-runtime"@,
        r.impl_name@ == "pez-minimal-template-runtime"@,
        r.authoring_version == 1,
        r.spec_version == SPEC_VERSION,
        r.impl_version == 1,
        r.transaction_version == TRANSACTION_VERSION,
        r.system_version == 1,
{
    RuntimeVersion {
        spec_name: "pez-minimal-template-runtime".to_owned(),
        impl_name: "pez-minimal-template-runtime".to_owned(),
        authoring_version: 1,
        spec_version: SPEC_VERSION,
        impl_version: 1,
        transaction_version: TRANSACTION_VERSION,
        system_version: 1,
    }
}

pub fn native_version() -> (r: NativeVersion)
    ensures
        r.runtime_version.spec_version == SPEC_VERSION,
        r.runtime_version.transaction_version == TRANSACTION_VERSION,
        r.runtime_version.spec_name@ == "pez-minimal-template-runtime"@,
        r.runtime_version.impl_name@ == "pez-minimal-template-runtime"@,
        r.runtime_version.authoring_version == 1,
        r.runtime_version.impl_version == 1,
        r.runtime_version.system_version == 1,
        r.can_author_with@.len() == 0,
{
    NativeVersion { runtime_version: version(), can_author_with: Vec::new() }
}

/// The configuration of the development runtime on the chain whose genesis
/// hash is `genesis_hash`: no fee on weight, a fixed fee of one per
/// transaction on length.
pub fn development_config(genesis_hash: u64) -> (r: RuntimeConfig)
    ensures
        r.spec_version == SPEC_VERSION,
        r.tx_version == TRANSACTION_VERSION,
        r.genesis_hash == genesis_hash,
        r.max_block_weight == (Weight { ref_time: MAX_BLOCK_REF_TIME, proof_size: MAX_BLOCK_PROOF_SIZE }),
        r.weight_fee == (FeePolicy { base: 0, per_unit: 0 }),
        r.length_fee == (FeePolicy { base: 1, per_unit: 0 }),
        r.existential_deposit == EXISTENTIAL_DEPOSIT,
{
    RuntimeConfig {
        spec_version: SPEC_VERSION,
        tx_version: TRANSACTION_VERSION,
        genesis_hash,
        max_block_weight: Weight { ref_time: MAX_BLOCK_REF_TIME, proof_size: MAX_BLOCK_PROOF_SIZE },
        weight_fee: FeePolicy { base: 0, per_unit: 0 },
        length_fee: FeePolicy { base: 1, per_unit: 0 },
        existential_deposit: EXISTENTIAL_DEPOSIT,
    }
}

} // verus!
