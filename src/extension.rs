use crate::state::AccountInfo;
use crate::transaction::{fee_of, linear_fee, Era, FeePolicy, RuntimeConfig, Transaction};
use crate::weight::Weight;
use vstd::prelude::*;

verus! {

/// One check of the transaction-extension pipeline.
#[derive(Clone, Copy, Debug, PartialEq, Eq, Structural)]
pub enum Check {
    NonZeroSender,
    SpecVersion,
    TxVersion,
    Genesis,
    Era,
    Nonce,
    Weight,
    Payment,
    WeightReclaim,
}

/// Why the pipeline rejected a transaction.
#[derive(Clone, Copy, Debug, PartialEq, Eq, Structural)]
pub enum TxError {
    ZeroSender,
    BadSpecVersion,
    BadTxVersion,
    BadGenesis,
    /// The era starts after the current block.
    EraNotYetValid,
    /// The era ended at or before the current block.
    EraExpired,
    NonceTooLow,
    NonceTooHigh,
    /// The sender's nonce has reached its largest value.
    NonceExhausted,
    /// The declared weight does not fit in what is left of the block.
    ExhaustsResources,
    /// The balance cannot pay the fee and keep the existential deposit.
    InsufficientBalance,
}

/// The checks in the order in which they run on the way in.
pub open spec fn pipeline_spec() -> Seq<Check> {
    seq![
        Check::NonZeroSender,
        Check::SpecVersion,
        Check::TxVersion,
        Check::Genesis,
        Check::Era,
        Check::Nonce,
        Check::Weight,
        Check::Payment,
        Check::WeightReclaim,
    ]
}

/// What one check decides, given the block number, the weight the block has
/// consumed so far and the sender's account.
pub open spec fn check_outcome(
    c: Check,
    cfg: RuntimeConfig,
    number: u64,
    consumed: Weight,
    acct: AccountInfo,
    tx: Transaction,
) -> Option<TxError> {
    match c {
        Check::NonZeroSender => if tx.sender == 0 { Some(TxError::ZeroSender) } else { None },
        Check::SpecVersion => if tx.spec_version != cfg.spec_version {
            Some(TxError::BadSpecVersion)
        } else {
            None
        },
        Check::TxVersion => if tx.tx_version != cfg.tx_version {
            Some(TxError::BadTxVersion)
        } else {
            None
        },
        Check::Genesis => if tx.genesis_hash != cfg.genesis_hash {
            Some(TxError::BadGenesis)
        } else {
            None
        },
        Check::Era => match tx.era {
            Era::Immortal => None,
            Era::Mortal { birth, death } => if number < birth {
                Some(TxError::EraNotYetValid)
            } else if number >= death {
                Some(TxError::EraExpired)
            } else {
                None
            },
        },
        Check::Nonce => if tx.nonce < acct.nonce {
            Some(TxError::NonceTooLow)
        } else if tx.nonce > acct.nonce {
            Some(TxError::NonceTooHigh)
        } else if acct.nonce == u64::MAX {
            Some(TxError::NonceExhausted)
        } else {
            None
        },
        Check::Weight => if consumed.ref_time + tx.weight.ref_time > cfg.max_block_weight.ref_time
            || consumed.proof_size + tx.weight.proof_size > cfg.max_block_weight.proof_size {
            Some(TxError::ExhaustsResources)
        } else {
            None
        },
        Check::Payment => if fee_of(cfg, tx) + cfg.existential_deposit > acct.balance {
            Some(TxError::InsufficientBalance)
        } else {
            None
        },
        Check::WeightReclaim => None,
    }
}

/// The first rejection among `checks[i..]`, run in order.
pub open spec fn rejection_from(
    checks: Seq<Check>,
    i: int,
    cfg: RuntimeConfig,
    number: u64,
    consumed: Weight,
    acct: AccountInfo,
    tx: Transaction,
) -> Option<TxError>
    decreases checks.len() - i,
{
    if i < 0 || i >= checks.len() {
        None
    } else {
        match check_outcome(checks[i], cfg, number, consumed, acct, tx) {
            Some(e) => Some(e),
            None => rejection_from(checks, i + 1, cfg, number, consumed, acct, tx),
        }
    }
}

/// The pipeline's decision: the rejection of the first check that rejects.
pub open spec fn rejection(
    cfg: RuntimeConfig,
    number: u64,
    consumed: Weight,
    acct: AccountInfo,
    tx: Transaction,
) -> Option<TxError> {
    rejection_from(pipeline_spec(), 0, cfg, number, consumed, acct, tx)
}

/// The order of the post-dispatch hooks: the inbound order reversed, with
/// the weight reclaim moved to the very end.
pub open spec fn post_dispatch_spec() -> Seq<Check> {
    seq![
        Check::Payment,
        Check::Weight,
        Check::Nonce,
        Check::Era,
        Check::Genesis,
        Check::TxVersion,
        Check::SpecVersion,
        Check::NonZeroSender,
        Check::WeightReclaim,
    ]
}

/// The inbound checks as runtime data.
pub fn pipeline() -> (r: Vec<Check>)
    ensures
        r@ == pipeline_spec(),
{
    let mut v: Vec<Check> = Vec::new();
    v.push(Check::NonZeroSender);
    v.push(Check::SpecVersion);
    v.push(Check::TxVersion);
    v.push(Check::Genesis);
    v.push(Check::Era);
    v.push(Check::Nonce);
    v.push(Check::Weight);
    v.push(Check::Payment);
    v.push(Check::WeightReclaim);
    assert(v@ =~= pipeline_spec());
    v
}

/// The post-dispatch hooks in the order in which they run.
pub fn post_dispatch_order() -> (r: Vec<Check>)
    ensures
        r@ == post_dispatch_spec(),
        r@.len() == pipeline_spec().len(),
        forall|i: int| 0 <= i < 8 ==> r@[i] == pipeline_spec()[7 - i],
        r@.last() == Check::WeightReclaim,
{
    let mut v: Vec<Check> = Vec::new();
    v.push(Check::Payment);
    v.push(Check::Weight);
    v.push(Check::Nonce);
    v.push(Check::Era);
    v.push(Check::Genesis);
    v.push(Check::TxVersion);
    v.push(Check::SpecVersion);
    v.push(Check::NonZeroSender);
    v.push(Check::WeightReclaim);
    assert(v@ =~= post_dispatch_spec());
    v
}

/// `p` applied to `x`, or `None` where the result exceeds `u128::MAX`.
pub fn apply_fee_policy(p: &FeePolicy, x: u64) -> (r: Option<u128>)
    ensures
        r is Some <==> linear_fee(*p, x as int) <= u128::MAX,
        r matches Some(f) ==> f == linear_fee(*p, x as int),
{
    proof {
        assert(p.per_unit * (x as int) >= 0) by (nonlinear_arith);
    }
    match p.per_unit.checked_mul(x as u128) {
        Some(m) => p.base.checked_add(m),
        None => None,
    }
}

/// The fee of `tx` under `cfg`, or `None` where it exceeds `u128::MAX`.
pub fn compute_fee(cfg: &RuntimeConfig, tx: &Transaction) -> (r: Option<u128>)
    ensures
        r is Some <==> fee_of(*cfg, *tx) <= u128::MAX,
        r matches Some(f) ==> f == fee_of(*cfg, *tx),
{
    let w = apply_fee_policy(&cfg.weight_fee, tx.weight.ref_time);
    let l = apply_fee_policy(&cfg.length_fee, tx.length as u64);
    proof {
        assert(linear_fee(cfg.weight_fee, tx.weight.ref_time as int) >= 0) by (nonlinear_arith)
            requires cfg.weight_fee.per_unit >= 0, tx.weight.ref_time >= 0;
        assert(linear_fee(cfg.length_fee, tx.length as int) >= 0) by (nonlinear_arith)
            requires cfg.length_fee.per_unit >= 0, tx.length >= 0;
    }
    match (w, l) {
        (Some(a), Some(b)) => a.checked_add(b),
        _ => None,
    }
}

/// Runs one inbound check.
pub fn run_check(
    c: Check,
    cfg: &RuntimeConfig,
    number: u64,
    consumed: &Weight,
    acct: &AccountInfo,
    tx: &Transaction,
) -> (r: Option<TxError>)
    ensures
        r == check_outcome(c, *cfg, number, *consumed, *acct, *tx),
{
    match c {
        Check::NonZeroSender => if tx.sender == 0 { Some(TxError::ZeroSender) } else { None },
        Check::SpecVersion => if tx.spec_version != cfg.spec_version {
            Some(TxError::BadSpecVersion)
        } else {
            None
        },
        Check::TxVersion => if tx.tx_version != cfg.tx_version {
            Some(TxError::BadTxVersion)
        } else {
            None
        },
        Check::Genesis => if tx.genesis_hash != cfg.genesis_hash {
            Some(TxError::BadGenesis)
        } else {
            None
        },
        Check::Era => match tx.era {
            Era::Immortal => None,
            Era::Mortal { birth, death } => if number < birth {
                Some(TxError::EraNotYetValid)
            } else if number >= death {
                Some(TxError::EraExpired)
            } else {
                None
            },
        },
        Check::Nonce => if tx.nonce < acct.nonce {
            Some(TxError::NonceTooLow)
        } else if tx.nonce > acct.nonce {
            Some(TxError::NonceTooHigh)
        } else if acct.nonce == u64::MAX {
            Some(TxError::NonceExhausted)
        } else {
            None
        },
        Check::Weight => match consumed.checked_add(&tx.weight) {
            Some(total) => if total.all_lte(&cfg.max_block_weight) {
                None
            } else {
                Some(TxError::ExhaustsResources)
            },
            None => Some(TxError::ExhaustsResources),
        },
        Check::Payment => match compute_fee(cfg, tx) {
            Some(fee) => match fee.checked_add(cfg.existential_deposit) {
                Some(need) => if need > acct.balance {
                    Some(TxError::InsufficientBalance)
                } else {
                    None
                },
                None => Some(TxError::InsufficientBalance),
            },
            None => Some(TxError::InsufficientBalance),
        },
        Check::WeightReclaim => None,
    }
}

/// Runs the inbound checks in order and returns the first rejection. It
/// reads the state and changes nothing.
pub fn validate_checks(
    cfg: &RuntimeConfig,
    number: u64,
    consumed: &Weight,
    acct: &AccountInfo,
    tx: &Transaction,
) -> (r: Option<TxError>)
    ensures
        r == rejection(*cfg, number, *consumed, *acct, *tx),
{
    let checks = pipeline();
    let mut i: usize = 0;
    while i < checks.len()
        invariant
            checks@ == pipeline_spec(),
            0 <= i <= checks@.len(),
            rejection(*cfg, number, *consumed, *acct, *tx) == rejection_from(
                checks@,
                i as int,
                *cfg,
                number,
                *consumed,
                *acct,
                *tx,
            ),
        decreases checks.len() - i,
    {
        let r = run_check(checks[i], cfg, number, consumed, acct, tx);
        if r.is_some() {
            return r;
        }
        i = i + 1;
    }
    None
}

/// The post-dispatch hook of one check: the weight reclaim gives back to the
/// block what the declared weight reserved beyond the actual one; the other
/// hooks leave the consumed weight as it is.
pub fn post_dispatch(c: Check, consumed: &Weight, declared: &Weight, actual: &Weight) -> (r: Weight)
    requires
        actual.fits_in(*declared),
        declared.ref_time <= consumed.ref_time,
        declared.proof_size <= consumed.proof_size,
    ensures
        c == Check::WeightReclaim ==> r.ref_time == consumed.ref_time - (declared.ref_time
            - actual.ref_time) && r.proof_size == consumed.proof_size - (declared.proof_size
            - actual.proof_size),
        c != Check::WeightReclaim ==> r == *consumed,
{
    match c {
        Check::WeightReclaim => Weight {
            ref_time: consumed.ref_time - (declared.ref_time - actual.ref_time),
            proof_size: consumed.proof_size - (declared.proof_size - actual.proof_size),
        },
        _ => *consumed,
    }
}

} // verus!
