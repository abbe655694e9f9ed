use crate::extension::{
    post_dispatch, post_dispatch_order, post_dispatch_spec, rejection, validate_checks, Check,
    TxError,
};
use crate::state::{account_in, with_account, AccountInfo, State, StateView};
use crate::template::{Origin, Pezpallet};
use crate::transaction::{fee_of, Call, RuntimeConfig, Transaction};
use crate::weight::Weight;
use vstd::prelude::*;

verus! {

/// Why a module refused a structurally valid call.
#[derive(Clone, Copy, Debug, PartialEq, Eq, Structural)]
pub enum ModuleError {
    InsufficientBalance,
    /// The transfer would leave an account under the existential deposit.
    ExistentialDeposit,
    BalanceOverflow,
}

/// Why the dispatch of a call failed.
#[derive(Clone, Copy, Debug, PartialEq, Eq, Structural)]
pub enum DispatchError {
    /// The module's logic rejected the call.
    Module(ModuleError),
    /// The sender may not make this call.
    BadOrigin,
    /// No module is registered at this index.
    ModuleNotFound(u8),
}

/// The outcome of a transaction that passed the pipeline.
#[derive(Clone, Copy, Debug, PartialEq, Eq)]
pub struct DispatchOutcome {
    pub result: Result<(), DispatchError>,
    /// The weight actually consumed.
    pub weight: Weight,
    /// The fee charged.
    pub fee: u128,
}

/// The cost of executing each call.
pub open spec fn call_weight_spec(call: Call) -> Weight {
    match call {
        Call::Remark => Weight { ref_time: 1_000, proof_size: 0 },
        Call::DoSomething(_) => Weight { ref_time: 10_000, proof_size: 100 },
        Call::Transfer { .. } => Weight { ref_time: 50_000, proof_size: 200 },
        Call::SetSudoKey(_) => Weight { ref_time: 20_000, proof_size: 100 },
        Call::Unknown(_) => Weight { ref_time: 0, proof_size: 0 },
    }
}

pub fn call_weight(call: &Call) -> (r: Weight)
    ensures
        r == call_weight_spec(*call),
{
    match call {
        Call::Remark => Weight { ref_time: 1_000, proof_size: 0 },
        Call::DoSomething(_) => Weight { ref_time: 10_000, proof_size: 100 },
        Call::Transfer { .. } => Weight { ref_time: 50_000, proof_size: 200 },
        Call::SetSudoKey(_) => Weight { ref_time: 20_000, proof_size: 100 },
        Call::Unknown(_) => Weight { ref_time: 0, proof_size: 0 },
    }
}

pub open spec fn weight_min(a: Weight, b: Weight) -> Weight {
    Weight {
        ref_time: if a.ref_time <= b.ref_time { a.ref_time } else { b.ref_time },
        proof_size: if a.proof_size <= b.proof_size { a.proof_size } else { b.proof_size },
    }
}

pub open spec fn weight_sum(a: Weight, b: Weight) -> Weight {
    Weight {
        ref_time: (a.ref_time + b.ref_time) as u64,
        proof_size: (a.proof_size + b.proof_size) as u64,
    }
}

/// What executing `call` from `sender` does: the new state and the result.
/// A failing call leaves the state as it was.
pub open spec fn dispatch_spec(ed: u128, s: StateView, sender: u64, call: Call) -> (
    StateView,
    Result<(), DispatchError>,
) {
    match call {
        Call::Remark => (s, Ok(())),
        Call::DoSomething(v) => (StateView { something: Some(v), ..s }, Ok(())),
        Call::Transfer { dest, amount } => {
            let from = account_in(s.accounts, sender);
            let to = account_in(s.accounts, dest);
            if amount > from.balance {
                (s, Err(DispatchError::Module(ModuleError::InsufficientBalance)))
            } else if from.balance - amount < ed {
                (s, Err(DispatchError::Module(ModuleError::ExistentialDeposit)))
            } else if dest == sender {
                (s, Ok(()))
            } else if to.balance + amount > u128::MAX {
                (s, Err(DispatchError::Module(ModuleError::BalanceOverflow)))
            } else if to.balance + amount < ed {
                (s, Err(DispatchError::Module(ModuleError::ExistentialDeposit)))
            } else {
                let debited = with_account(
                    s,
                    sender,
                    AccountInfo { balance: (from.balance - amount) as u128, ..from },
                );
                (
                    with_account(
                        debited,
                        dest,
                        AccountInfo { balance: (to.balance + amount) as u128, ..to },
                    ),
                    Ok(()),
                )
            }
        },
        Call::SetSudoKey(new_key) => if s.sudo_key == Some(sender) {
            (StateView { sudo_key: Some(new_key), ..s }, Ok(()))
        } else {
            (s, Err(DispatchError::BadOrigin))
        },
        Call::Unknown(index) => (s, Err(DispatchError::ModuleNotFound(index))),
    }
}

/// Executes `call` from an authenticated `sender` against `state`.
pub fn dispatch(ed: u128, state: &mut State, sender: u64, call: &Call) -> (r: Result<
    (),
    DispatchError,
>)
    ensures
        (final(state)@, r) == dispatch_spec(ed, old(state)@, sender, *call),
{
    match call {
        Call::Remark => Ok(()),
        Call::DoSomething(v) => Pezpallet::do_something(state, Origin::Signed(sender), *v),
        Call::Transfer { dest, amount } => {
            let from = state.account(sender);
            let to = state.account(*dest);
            if *amount > from.balance {
                Err(DispatchError::Module(ModuleError::InsufficientBalance))
            } else if from.balance - *amount < ed {
                Err(DispatchError::Module(ModuleError::ExistentialDeposit))
            } else if *dest == sender {
                Ok(())
            } else {
                match to.balance.checked_add(*amount) {
                    None => Err(DispatchError::Module(ModuleError::BalanceOverflow)),
                    Some(credited) => {
                        if credited < ed {
                            Err(DispatchError::Module(ModuleError::ExistentialDeposit))
                        } else {
                            state.set_account(
                                sender,
                                AccountInfo { nonce: from.nonce, balance: from.balance - *amount },
                            );
                            state.set_account(*dest, AccountInfo { nonce: to.nonce, balance: credited });
                            Ok(())
                        }
                    },
                }
            }
        },
        Call::SetSudoKey(new_key) => {
            if state.sudo_key == Some(sender) {
                state.sudo_key = Some(*new_key);
                Ok(())
            } else {
                Err(DispatchError::BadOrigin)
            }
        },
        Call::Unknown(index) => Err(DispatchError::ModuleNotFound(*index)),
    }
}

/// The result of running one transaction through the pipeline and executor.
pub struct Applied {
    pub state: StateView,
    pub consumed: Weight,
    pub result: Result<DispatchOutcome, TxError>,
}

/// What applying `tx` does. A rejected transaction changes nothing. An
/// accepted one pays its fee and advances the sender's nonce by one before
/// its call runs, whatever the call's outcome; the block is charged the
/// weight actually consumed.
pub open spec fn apply_spec(
    cfg: RuntimeConfig,
    number: u64,
    consumed: Weight,
    s: StateView,
    tx: Transaction,
) -> Applied {
    let acct = account_in(s.accounts, tx.sender);
    match rejection(cfg, number, consumed, acct, tx) {
        Some(e) => Applied { state: s, consumed, result: Err(e) },
        None => {
            let fee = fee_of(cfg, tx);
            let charged = with_account(
                s,
                tx.sender,
                AccountInfo { nonce: (acct.nonce + 1) as u64, balance: (acct.balance - fee) as u128 },
            );
            let dispatched = dispatch_spec(cfg.existential_deposit, charged, tx.sender, tx.call);
            let actual = weight_min(call_weight_spec(tx.call), tx.weight);
            Applied {
                state: dispatched.0,
                consumed: weight_sum(consumed, actual),
                result: Ok(DispatchOutcome { result: dispatched.1, weight: actual, fee: fee as u128 }),
            }
        },
    }
}

/// Runs `tx` through the inbound checks, charges it, dispatches its call and
/// runs the post-dispatch hooks, in block `number` with `consumed` weight
/// already used.
pub fn apply_transaction(
    cfg: &RuntimeConfig,
    number: u64,
    consumed: &mut Weight,
    state: &mut State,
    tx: &Transaction,
) -> (r: Result<DispatchOutcome, TxError>)
    ensures
        ({
            let a = apply_spec(*cfg, number, *old(consumed), old(state)@, *tx);
            &&& final(state)@ == a.state
            &&& *final(consumed) == a.consumed
            &&& r == a.result
        }),
{
    let acct = state.account(tx.sender);
    match validate_checks(cfg, number, consumed, &acct, tx) {
        Some(e) => {
            return Err(e);
        },
        None => {},
    }
    proof {
        assert(rejection(*cfg, number, *consumed, acct, *tx) is None);
        reveal_with_fuel(crate::extension::rejection_from, 10);
    }
    let fee = match crate::extension::compute_fee(cfg, tx) {
        Some(f) => f,
        None => {
            return Err(TxError::InsufficientBalance);
        },
    };
    state.set_account(tx.sender, AccountInfo { nonce: acct.nonce + 1, balance: acct.balance - fee });
    let reserved = Weight {
        ref_time: consumed.ref_time + tx.weight.ref_time,
        proof_size: consumed.proof_size + tx.weight.proof_size,
    };
    let result = dispatch(cfg.existential_deposit, state, tx.sender, &tx.call);
    let actual = call_weight(&tx.call).min(&tx.weight);
    let hooks = post_dispatch_order();
    let mut after = reserved;
    let mut i: usize = 0;
    while i < hooks.len()
        invariant
            hooks@ == post_dispatch_spec(),
            0 <= i <= hooks@.len(),
            actual.fits_in(tx.weight),
            tx.weight.ref_time <= reserved.ref_time,
            tx.weight.proof_size <= reserved.proof_size,
            i < hooks@.len() ==> after == reserved,
            i == hooks@.len() ==> after == weight_sum(*old(consumed), actual),
            reserved.ref_time == old(consumed).ref_time + tx.weight.ref_time,
            reserved.proof_size == old(consumed).proof_size + tx.weight.proof_size,
        decreases hooks.len() - i,
    {
        after = post_dispatch(hooks[i], &after, &tx.weight, &actual);
        i = i + 1;
    }
    *consumed = after;
    Ok(DispatchOutcome { result, weight: actual, fee })
}

} // verus!
