use crate::runtime::{apply_all, total_proof_size, total_ref_time, Runtime};
use crate::executor::apply_spec;
use crate::state::{account_in, StateView};
use crate::transaction::{fee_of, linear_fee, Call, RuntimeConfig, Transaction};
use crate::genesis::{
    GenesisModel,
    balances_name_spec, balances_state, build_state_spec, development_model, genesis_state,
    lemma_compact_name, lemma_compact_patch_json, lemma_patch_round_trip, lemma_quote_end_found,
    compact, compact_from, parse_patch, member_at, patch_json, preset_spec, sudo_name_spec,
    GenesisError, ALICE, EXISTENTIAL_DEPOSIT,
};
use crate::weight::Weight;
use vstd::prelude::*;

verus! {

/// A transaction is accepted only when its declared weight fits in what is
/// left of the block's budget; the block is then charged at most that
/// declared weight, so a block within budget stays within budget.
pub proof fn lemma_apply_keeps_budget(
    cfg: RuntimeConfig,
    number: u64,
    consumed: Weight,
    s: StateView,
    tx: Transaction,
)
    ensures
        ({
            let a = apply_spec(cfg, number, consumed, s, tx);
            &&& a.result is Ok ==> consumed.ref_time + tx.weight.ref_time
                <= cfg.max_block_weight.ref_time && consumed.proof_size + tx.weight.proof_size
                <= cfg.max_block_weight.proof_size
            &&& a.result matches Ok(o) ==> o.weight.fits_in(tx.weight) && a.consumed.ref_time
                == consumed.ref_time + o.weight.ref_time && a.consumed.proof_size
                == consumed.proof_size + o.weight.proof_size
            &&& a.result is Err ==> a.consumed == consumed
            &&& consumed.fits_in(cfg.max_block_weight) ==> a.consumed.fits_in(cfg.max_block_weight)
        }),
{
    reveal_with_fuel(crate::extension::rejection_from, 10);
}

/// Nonce monotonicity: an accepted transaction carries exactly its sender's
/// current nonce and leaves that nonce one higher.
pub proof fn lemma_nonce_advances(
    cfg: RuntimeConfig,
    number: u64,
    consumed: Weight,
    s: StateView,
    tx: Transaction,
)
    ensures
        ({
            let a = apply_spec(cfg, number, consumed, s, tx);
            let before = account_in(s.accounts, tx.sender).nonce;
            &&& a.result is Ok ==> tx.nonce == before && account_in(a.state.accounts, tx.sender).nonce
                == before + 1
            &&& forall|other: u64|
                other != tx.sender ==> #[trigger] account_in(a.state.accounts, other).nonce
                    == account_in(s.accounts, other).nonce
        }),
{
    reveal_with_fuel(crate::extension::rejection_from, 10);
}

/// Two transactions of one sender accepted one after the other in a block
/// carry consecutive nonces, and the sender's nonce rises by two.
pub proof fn lemma_nonces_in_submission_order(
    cfg: RuntimeConfig,
    number: u64,
    consumed: Weight,
    s: StateView,
    first: Transaction,
    second: Transaction,
)
    requires
        first.sender == second.sender,
        apply_spec(cfg, number, consumed, s, first).result is Ok,
        ({
            let a = apply_spec(cfg, number, consumed, s, first);
            apply_spec(cfg, number, a.consumed, a.state, second).result is Ok
        }),
    ensures
        ({
            let a = apply_spec(cfg, number, consumed, s, first);
            let b = apply_spec(cfg, number, a.consumed, a.state, second);
            &&& second.nonce == first.nonce + 1
            &&& account_in(b.state.accounts, first.sender).nonce == account_in(
                s.accounts,
                first.sender,
            ).nonce + 2
        }),
{
    let a = apply_spec(cfg, number, consumed, s, first);
    lemma_nonce_advances(cfg, number, consumed, s, first);
    lemma_nonce_advances(cfg, number, a.consumed, a.state, second);
}

/// Transactions of one sender all accepted in a block, in submission order,
/// carry the consecutive nonces from the sender's nonce before them, and the
/// sender's nonce ends that many higher.
pub proof fn lemma_nonces_consecutive(
    cfg: RuntimeConfig,
    number: u64,
    consumed: Weight,
    s: StateView,
    sender: u64,
    txs: Seq<Transaction>,
)
    requires
        forall|j: int| 0 <= j < txs.len() ==> (#[trigger] txs[j]).sender == sender,
        apply_all(cfg, number, consumed, s, txs) is Some,
    ensures
        forall|j: int| 0 <= j < txs.len() ==> (#[trigger] txs[j]).nonce == account_in(
            s.accounts,
            sender,
        ).nonce + j,
        account_in(apply_all(cfg, number, consumed, s, txs)->Some_0.0.accounts, sender).nonce
            == account_in(s.accounts, sender).nonce + txs.len(),
    decreases txs.len(),
{
    if txs.len() > 0 {
        let init = txs.drop_last();
        assert forall|j: int| 0 <= j < init.len() implies (#[trigger] init[j]).sender == sender by {
            assert(init[j] == txs[j]);
        }
        lemma_nonces_consecutive(cfg, number, consumed, s, sender, init);
        let (s1, c1) = apply_all(cfg, number, consumed, s, init)->Some_0;
        lemma_nonce_advances(cfg, number, c1, s1, txs.last());
        assert forall|j: int| 0 <= j < txs.len() implies (#[trigger] txs[j]).nonce == account_in(
            s.accounts,
            sender,
        ).nonce + j by {
            if j < init.len() {
                assert(init[j] == txs[j]);
            }
        }
    }
}

/// A template `do_something` transaction through the pipeline: accepted, it
/// stores its value, pays exactly its fee and advances only its sender's
/// nonce; rejected, it changes nothing and the value is not stored.
pub proof fn lemma_do_something_applied(
    cfg: RuntimeConfig,
    number: u64,
    consumed: Weight,
    s: StateView,
    tx: Transaction,
    v: u32,
)
    requires
        tx.call == Call::DoSomething(v),
    ensures
        ({
            let a = apply_spec(cfg, number, consumed, s, tx);
            let before = account_in(s.accounts, tx.sender);
            &&& a.result matches Ok(o) ==> o.result is Ok && a.state.something == Some(v)
                && account_in(a.state.accounts, tx.sender).nonce == before.nonce + 1
                && account_in(a.state.accounts, tx.sender).balance == before.balance - fee_of(
                cfg,
                tx,
            ) && a.state.sudo_key == s.sudo_key
            &&& a.result is Err ==> a.state == s && a.consumed == consumed
            &&& forall|other: u64|
                other != tx.sender ==> #[trigger] account_in(a.state.accounts, other) == account_in(
                    s.accounts,
                    other,
                )
        }),
{
    reveal_with_fuel(crate::extension::rejection_from, 10);
}

/// Pipeline atomicity: a rejected transaction leaves the state and the
/// block's consumed weight exactly as they were.
pub proof fn lemma_rejection_changes_nothing(
    cfg: RuntimeConfig,
    number: u64,
    consumed: Weight,
    s: StateView,
    tx: Transaction,
)
    ensures
        ({
            let a = apply_spec(cfg, number, consumed, s, tx);
            a.result is Err ==> a.state == s && a.consumed == consumed
        }),
{
}

/// Weight conservation: in a well-formed block the weights its transactions
/// consumed add up to at most the block's budget.
pub proof fn lemma_block_within_budget(b: Runtime)
    requires
        b.wf(),
    ensures
        total_ref_time(b.events@) <= b.config.max_block_weight.ref_time,
        total_proof_size(b.events@) <= b.config.max_block_weight.proof_size,
{
}

/// Fee determinism: an accepted transaction is charged the weight policy on
/// its declared weight plus the length policy on its length, whatever the
/// state; a call other than a transfer leaves the sender's balance lower by
/// exactly that fee.
pub proof fn lemma_fee_is_policy(
    cfg: RuntimeConfig,
    number: u64,
    consumed: Weight,
    s: StateView,
    tx: Transaction,
)
    ensures
        ({
            let a = apply_spec(cfg, number, consumed, s, tx);
            &&& a.result matches Ok(o) ==> o.fee == linear_fee(
                cfg.weight_fee,
                tx.weight.ref_time as int,
            ) + linear_fee(cfg.length_fee, tx.length as int)
            &&& (a.result is Ok && !(tx.call is Transfer)) ==> account_in(
                a.state.accounts,
                tx.sender,
            ).balance == account_in(s.accounts, tx.sender).balance - fee_of(cfg, tx)
        }),
{
    reveal_with_fuel(crate::extension::rejection_from, 10);
}

/// Transactions with the same declared weight and length that are both
/// accepted pay the same fee, in any state and any block.
pub proof fn lemma_fee_determinism(
    cfg: RuntimeConfig,
    number1: u64,
    consumed1: Weight,
    s1: StateView,
    tx1: Transaction,
    number2: u64,
    consumed2: Weight,
    s2: StateView,
    tx2: Transaction,
)
    requires
        tx1.weight == tx2.weight,
        tx1.length == tx2.length,
    ensures
        ({
            let a = apply_spec(cfg, number1, consumed1, s1, tx1);
            let b = apply_spec(cfg, number2, consumed2, s2, tx2);
            (a.result is Ok && b.result is Ok) ==> a.result->Ok_0.fee == b.result->Ok_0.fee
        }),
{
    lemma_fee_is_policy(cfg, number1, consumed1, s1, tx1);
    lemma_fee_is_policy(cfg, number2, consumed2, s2, tx2);
}

/// The development preset is read without any built state and is the same
/// bytes on every read: the JSON text of the development patch.
pub proof fn lemma_development_preset_is_fixed()
    ensures
        preset_spec("development"@) == Some(patch_json(development_model())),
{
}

/// The development preset's bytes build the state that the development patch
/// describes: six endowed accounts and Alice as the privileged key.
pub proof fn lemma_development_preset_builds()
    ensures
        build_state_spec(patch_json(development_model())) == genesis_state(
            development_model(),
            EXISTENTIAL_DEPOSIT,
        ),
        genesis_state(development_model(), EXISTENTIAL_DEPOSIT) matches Ok(s) && s.sudo_key == Some(
            ALICE,
        ) && s.accounts.dom().len() == 6 && forall|who: u64|
            1 <= who <= 6 ==> #[trigger] account_in(s.accounts, who).balance == 1000,
{
    lemma_patch_round_trip(development_model());
    lemma_compact_patch_json(development_model());
    reveal_with_fuel(balances_state, 7);
    let bs = development_model().balances;
    assert(bs.drop_last().drop_last().drop_last().drop_last().drop_last().drop_last() =~= Seq::<
        (u64, u128),
    >::empty());
    let m = balances_state(bs, EXISTENTIAL_DEPOSIT)->Ok_0;
    assert(m.dom() =~= set![1u64, 2u64, 3u64, 4u64, 5u64, 6u64]);
    assert(set![1u64, 2u64, 3u64, 4u64, 5u64, 6u64].len() == 6);
}

proof fn lemma_unknown_first_member(name: Seq<u8>, rest: Seq<u8>)
    requires
        forall|i: int| 0 <= i < name.len() ==> name[i] != 34,
        name != balances_name_spec(),
        name != sudo_name_spec(),
    ensures
        parse_patch(seq![123u8, 34u8] + name + seq![34u8, 58u8] + rest) == Err::<
            GenesisModel,
            GenesisError,
        >(GenesisError::UnknownModule),
{
    let b = seq![123u8, 34u8] + name + seq![34u8, 58u8] + rest;
    let end = 2 + name.len() as int;
    assert(b[end] == 34);
    assert(b[end + 1] == 58);
    assert forall|i: int| 2 <= i < end implies b[i] != 34 by {
        assert(b[i] == name[i - 2]);
    }
    lemma_quote_end_found(b, 2, end);
    assert(b.subrange(2, end) =~= name);
    reveal(member_at);
}

/// A patch whose first entry names a module that the runtime does not hold
/// is refused as naming an unknown module, whatever whitespace surrounds it,
/// and no state comes of it.
pub proof fn lemma_unknown_module_rejected(name: Seq<u8>, rest: Seq<u8>)
    requires
        forall|i: int| 0 <= i < name.len() ==> name[i] != 34,
        name != balances_name_spec(),
        name != sudo_name_spec(),
    ensures
        build_state_spec(seq![123u8, 34u8] + name + seq![34u8, 58u8] + rest) == Err::<
            StateView,
            GenesisError,
        >(GenesisError::UnknownModule),
{
    let b = seq![123u8, 34u8] + name + seq![34u8, 58u8] + rest;
    let end = 2 + name.len() as int;
    assert(b[0] == 123 && b[1] == 34 && b[end] == 34 && b[end + 1] == 58);
    assert forall|i: int| 2 <= i < end implies b[i] != 34 by {
        assert(b[i] == name[i - 2]);
    }
    lemma_compact_name(b, 2, end, false);
    assert(b.subrange(2, end) =~= name);
    let x = compact_from(b, end + 2, false, false);
    assert(compact_from(b, end + 1, false, false) == seq![58u8] + x);
    assert(compact_from(b, 1, false, false) == seq![34u8] + (name + (seq![34u8] + (seq![58u8]
        + x))));
    assert(compact(b) == seq![123u8] + (seq![34u8] + (name + (seq![34u8] + (seq![58u8] + x)))));
    assert(compact(b) =~= seq![123u8, 34u8] + name + seq![34u8, 58u8] + x);
    lemma_unknown_first_member(name, x);
}

} // verus!
