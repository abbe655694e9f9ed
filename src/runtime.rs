use crate::executor::{apply_spec, apply_transaction, DispatchError, DispatchOutcome};
use crate::extension::{apply_fee_policy, rejection, validate_checks, TxError};
use crate::state::{account_in, State, StateView};
use crate::transaction::{fee_of, linear_fee, Era, RuntimeConfig, Transaction};
use crate::weight::Weight;
use vstd::prelude::*;

verus! {

/// A block header. The two roots are placeholders that the lifecycle fills
/// at finalization; real hashing belongs to the host.
#[derive(Clone, Copy, Debug, PartialEq, Eq, Structural)]
pub struct Header {
    pub number: u64,
    pub parent_hash: u64,
    pub state_root: u64,
    pub extrinsics_root: u64,
}

/// The link a child header must name as its parent: a placeholder digest of
/// the header's fields, not a cryptographic hash.
pub open spec fn header_link(h: Header) -> u64 {
    h.number ^ h.parent_hash ^ h.state_root ^ h.extrinsics_root
}

pub fn header_digest(h: &Header) -> (r: u64)
    ensures
        r == header_link(*h),
{
    h.number ^ h.parent_hash ^ h.state_root ^ h.extrinsics_root
}

#[derive(Clone, Copy, Debug, PartialEq, Eq, Structural)]
pub enum Phase {
    /// No block instance has been started.
    Idle,
    /// Initialized; transactions may be applied.
    Building,
    /// The current block's header is fixed.
    Finalized,
}

/// A block-level failure.
#[derive(Clone, Copy, Debug, PartialEq, Eq, Structural)]
pub enum BlockError {
    /// A block is already being built.
    AlreadyBuilding,
    /// No block is being built.
    NotBuilding,
    /// The header does not follow the last finalized block.
    BadParent,
    /// The inherent data is inconsistent with the chain state.
    InherentRejected,
    /// A transaction of the block was rejected.
    InvalidTransaction,
    /// The header's roots differ from those the execution computed.
    RootMismatch,
}

/// Why `apply_extrinsic` returned without applying.
#[derive(Clone, Copy, Debug, PartialEq, Eq, Structural)]
pub enum ApplyError {
    /// Called outside the building phase: a misuse by the host.
    NotBuilding,
    /// The pipeline rejected the transaction.
    Invalid(TxError),
}

/// The event recorded for each applied transaction.
#[derive(Clone, Copy, Debug, PartialEq, Eq)]
pub struct Event {
    pub sender: u64,
    pub result: Result<(), DispatchError>,
    pub weight: Weight,
}

/// Block-wide data supplied by the host.
#[derive(Clone, Copy, Debug, PartialEq, Eq, Structural)]
pub struct InherentData {
    pub timestamp: Option<u64>,
}

/// What the transaction pool learns of a valid transaction.
#[derive(Clone, Copy, Debug, PartialEq, Eq, Structural)]
pub struct ValidTransaction {
    /// The fee the transaction would pay.
    pub priority: u128,
    /// How many more blocks the transaction stays valid.
    pub longevity: u64,
}

/// The event an applied transaction leaves.
pub open spec fn event_of(tx: Transaction, o: DispatchOutcome) -> Event {
    Event { sender: tx.sender, result: o.result, weight: o.weight }
}

pub open spec fn total_ref_time(evs: Seq<Event>) -> int
    decreases evs.len(),
{
    if evs.len() == 0 {
        0
    } else {
        total_ref_time(evs.drop_last()) + evs.last().weight.ref_time
    }
}

pub open spec fn total_proof_size(evs: Seq<Event>) -> int
    decreases evs.len(),
{
    if evs.len() == 0 {
        0
    } else {
        total_proof_size(evs.drop_last()) + evs.last().weight.proof_size
    }
}

/// Applying `txs` in order from `s` with `consumed` weight used: the final
/// state and consumed weight, or `None` where a transaction is rejected.
pub open spec fn apply_all(
    cfg: RuntimeConfig,
    number: u64,
    consumed: Weight,
    s: StateView,
    txs: Seq<Transaction>,
) -> Option<(StateView, Weight)>
    decreases txs.len(),
{
    if txs.len() == 0 {
        Some((s, consumed))
    } else {
        match apply_all(cfg, number, consumed, s, txs.drop_last()) {
            None => None,
            Some((s1, c1)) => {
                let a = apply_spec(cfg, number, c1, s1, txs.last());
                if a.result is Ok {
                    Some((a.state, a.consumed))
                } else {
                    None
                }
            },
        }
    }
}

/// What importing the block `header` with `txs` into `rt` gives: the new
/// state, or the block-level error.
pub open spec fn execute_outcome(rt: Runtime, header: Header, txs: Seq<Transaction>) -> Result<
    StateView,
    BlockError,
> {
    let zero = Weight { ref_time: 0, proof_size: 0 };
    let run = apply_all(rt.config, header.number, zero, rt.state@, txs);
    if rt.phase == Phase::Building {
        Err(BlockError::AlreadyBuilding)
    } else if header.number != rt.best_number + 1 || header.parent_hash != rt.best_hash {
        Err(BlockError::BadParent)
    } else if run is None {
        Err(BlockError::InvalidTransaction)
    } else if header.state_root != run->Some_0.1.ref_time || header.extrinsics_root != txs.len() {
        Err(BlockError::RootMismatch)
    } else {
        Ok(run->Some_0.0)
    }
}

proof fn lemma_apply_all_prefix(
    cfg: RuntimeConfig,
    number: u64,
    consumed: Weight,
    s: StateView,
    txs: Seq<Transaction>,
    k: int,
)
    requires
        0 <= k <= txs.len(),
        apply_all(cfg, number, consumed, s, txs.take(k)) is None,
    ensures
        apply_all(cfg, number, consumed, s, txs) is None,
    decreases txs.len() - k,
{
    if k < txs.len() {
        assert(txs.take(k + 1).drop_last() =~= txs.take(k));
        lemma_apply_all_prefix(cfg, number, consumed, s, txs, k + 1);
    } else {
        assert(txs.take(k) =~= txs);
    }
}

/// The block lifecycle: `Idle -> Building -> Finalized`, then a fresh
/// instance for the next block.
pub struct Runtime {
    pub config: RuntimeConfig,
    pub state: State,
    pub phase: Phase,
    /// The header of the block being built, or of the last finalized one.
    pub header: Header,
    /// Weight the current block has consumed.
    pub consumed: Weight,
    /// The transactions the current block holds, in order.
    pub extrinsics: Vec<Transaction>,
    /// One event per entry of `extrinsics`.
    pub events: Vec<Event>,
    /// Number and link of the last finalized block (the genesis block first).
    pub best_number: u64,
    pub best_hash: u64,
}

impl Runtime {
    /// The block's consumed weight is the sum of what its transactions
    /// consumed, and fits in the budget.
    pub open spec fn wf(&self) -> bool {
        &&& self.consumed.fits_in(self.config.max_block_weight)
        &&& self.consumed.ref_time == total_ref_time(self.events@)
        &&& self.consumed.proof_size == total_proof_size(self.events@)
        &&& self.events@.len() == self.extrinsics@.len()
    }

    /// A runtime over the genesis `state`, before any block.
    pub fn new(config: RuntimeConfig, state: State) -> (r: Runtime)
        ensures
            r.wf(),
            r.config == config,
            r.state@ == state@,
            r.phase == Phase::Idle,
            r.best_number == 0,
            r.best_hash == config.genesis_hash,
            r.extrinsics@.len() == 0,
    {
        Runtime {
            config,
            state,
            phase: Phase::Idle,
            header: Header { number: 0, parent_hash: 0, state_root: 0, extrinsics_root: 0 },
            consumed: Weight { ref_time: 0, proof_size: 0 },
            extrinsics: Vec::new(),
            events: Vec::new(),
            best_number: 0,
            best_hash: config.genesis_hash,
        }
    }

    /// Starts a new block instance with `header`, which must follow the last
    /// finalized block; the weight budget starts afresh.
    pub fn initialize_block(&mut self, header: Header) -> (r: Result<(), BlockError>)
        requires
            old(self).wf(),
        ensures
            final(self).wf(),
            final(self).config == old(self).config,
            final(self).state@ == old(self).state@,
            final(self).best_number == old(self).best_number,
            final(self).best_hash == old(self).best_hash,
            old(self).phase == Phase::Building ==> r == Err::<(), BlockError>(
                BlockError::AlreadyBuilding,
            ),
            old(self).phase != Phase::Building && (header.number != old(self).best_number + 1
                || header.parent_hash != old(self).best_hash) ==> r == Err::<(), BlockError>(
                BlockError::BadParent,
            ),
            r is Err ==> final(self).phase == old(self).phase && final(self).header == old(self).header && final(self).consumed == old(self).consumed && final(self).extrinsics@
                == old(self).extrinsics@,
            r is Ok <==> (old(self).phase != Phase::Building && header.number == old(self).best_number + 1 && header.parent_hash == old(self).best_hash),
            r is Ok ==> final(self).phase == Phase::Building && final(self).header == header
                && final(self).consumed == (Weight { ref_time: 0, proof_size: 0 }) && final(self).extrinsics@.len() == 0,
    {
        if self.phase == Phase::Building {
            return Err(BlockError::AlreadyBuilding);
        }
        if self.best_number == u64::MAX || header.number != self.best_number + 1
            || header.parent_hash != self.best_hash {
            return Err(BlockError::BadParent);
        }
        self.phase = Phase::Building;
        self.header = header;
        self.consumed = Weight { ref_time: 0, proof_size: 0 };
        self.extrinsics = Vec::new();
        self.events = Vec::new();
        Ok(())
    }

    /// Runs `tx` through the pipeline and executor. An accepted transaction
    /// is appended to the block with its event; a rejected one changes
    /// nothing.
    pub fn apply_extrinsic(&mut self, tx: Transaction) -> (r: Result<DispatchOutcome, ApplyError>)
        requires
            old(self).wf(),
        ensures
            final(self).wf(),
            final(self).config == old(self).config,
            final(self).phase == old(self).phase,
            final(self).header == old(self).header,
            final(self).best_number == old(self).best_number,
            final(self).best_hash == old(self).best_hash,
            old(self).phase != Phase::Building ==> r == Err::<DispatchOutcome, ApplyError>(
                ApplyError::NotBuilding,
            ) && final(self).state@ == old(self).state@ && final(self).consumed == old(self).consumed && final(self).extrinsics@ == old(self).extrinsics@,
            old(self).phase == Phase::Building ==> ({
                let a = apply_spec(
                    old(self).config,
                    old(self).header.number,
                    old(self).consumed,
                    old(self).state@,
                    tx,
                );
                &&& final(self).state@ == a.state
                &&& final(self).consumed == a.consumed
                &&& match a.result {
                    Ok(o) => r == Ok::<DispatchOutcome, ApplyError>(o) && final(self).extrinsics@
                        == old(self).extrinsics@.push(tx) && final(self).events@ == old(self).events@.push(event_of(tx, o)),
                    Err(e) => r == Err::<DispatchOutcome, ApplyError>(ApplyError::Invalid(e))
                        && final(self).extrinsics@ == old(self).extrinsics@ && final(self).events@
                        == old(self).events@,
                }
            }),
    {
        if self.phase != Phase::Building {
            return Err(ApplyError::NotBuilding);
        }
        let number = self.header.number;
        proof {
            crate::laws::lemma_apply_keeps_budget(
                self.config,
                number,
                self.consumed,
                self.state@,
                tx,
            );
        }
        match apply_transaction(&self.config, number, &mut self.consumed, &mut self.state, &tx) {
            Ok(o) => {
                let ev = Event { sender: tx.sender, result: o.result, weight: o.weight };
                let ghost evs = self.events@;
                self.extrinsics.push(tx);
                self.events.push(ev);
                proof {
                    assert(self.events@.drop_last() =~= evs);
                }
                Ok(o)
            },
            Err(e) => Err(ApplyError::Invalid(e)),
        }
    }

    /// Fixes the header of the block being built and ends its instance.
    pub fn finalize_block(&mut self) -> (r: Result<Header, BlockError>)
        requires
            old(self).wf(),
        ensures
            final(self).wf(),
            final(self).config == old(self).config,
            final(self).state@ == old(self).state@,
            final(self).consumed == old(self).consumed,
            final(self).extrinsics@ == old(self).extrinsics@,
            old(self).phase != Phase::Building ==> r == Err::<Header, BlockError>(
                BlockError::NotBuilding,
            ) && final(self).phase == old(self).phase && final(self).best_number == old(self).best_number && final(self).best_hash == old(self).best_hash,
            old(self).phase == Phase::Building ==> ({
                let h = Header {
                    state_root: old(self).consumed.ref_time,
                    extrinsics_root: old(self).extrinsics@.len() as u64,
                    ..old(self).header
                };
                &&& r == Ok::<Header, BlockError>(h)
                &&& final(self).phase == Phase::Finalized
                &&& final(self).header == h
                &&& final(self).best_number == h.number
                &&& final(self).best_hash == header_link(h)
            }),
    {
        if self.phase != Phase::Building {
            return Err(BlockError::NotBuilding);
        }
        let h = Header {
            number: self.header.number,
            parent_hash: self.header.parent_hash,
            state_root: self.consumed.ref_time,
            extrinsics_root: self.extrinsics.len() as u64,
        };
        self.header = h;
        self.phase = Phase::Finalized;
        self.best_number = h.number;
        self.best_hash = header_digest(&h);
        Ok(h)
    }

    /// The nonce the next transaction of `who` must carry.
    pub fn account_nonce(&self, who: u64) -> (r: u64)
        ensures
            r == account_in(self.state@.accounts, who).nonce,
    {
        self.state.account(who).nonce
    }

    /// The fee the weight policy charges for `weight`, or `None` where it
    /// exceeds `u128::MAX`.
    pub fn query_weight_to_fee(&self, weight: &Weight) -> (r: Option<u128>)
        ensures
            r is Some <==> linear_fee(self.config.weight_fee, weight.ref_time as int) <= u128::MAX,
            r matches Some(f) ==> f == linear_fee(self.config.weight_fee, weight.ref_time as int),
    {
        apply_fee_policy(&self.config.weight_fee, weight.ref_time)
    }

    /// The fee the length policy charges for `length` bytes, or `None` where
    /// it exceeds `u128::MAX`.
    pub fn query_length_to_fee(&self, length: u32) -> (r: Option<u128>)
        ensures
            r is Some <==> linear_fee(self.config.length_fee, length as int) <= u128::MAX,
            r matches Some(f) ==> f == linear_fee(self.config.length_fee, length as int),
    {
        apply_fee_policy(&self.config.length_fee, length as u64)
    }

    /// Imports a whole block: initializes it with `header`, applies every
    /// transaction and finalizes it, requiring every transaction to be
    /// accepted and the header's roots to match. Nothing changes unless the
    /// whole block is accepted.
    pub fn execute_block(&mut self, header: Header, txs: &Vec<Transaction>) -> (r: Result<
        Header,
        BlockError,
    >)
        requires
            old(self).wf(),
        ensures
            final(self).wf(),
            final(self).config == old(self).config,
            match execute_outcome(*old(self), header, txs@) {
                Err(e) => r == Err::<Header, BlockError>(e),
                Ok(st) => {
                    &&& r == Ok::<Header, BlockError>(header)
                    &&& final(self).state@ == st
                    &&& final(self).phase == Phase::Finalized
                    &&& final(self).header == header
                    &&& final(self).best_number == header.number
                    &&& final(self).best_hash == header_link(header)
                    &&& final(self).extrinsics@ == txs@
                },
            },
            r is Err ==> final(self).state@ == old(self).state@ && final(self).phase == old(
                self,
            ).phase && final(self).best_number == old(self).best_number && final(self).best_hash
                == old(self).best_hash,
    {
        let mut block = Runtime {
            config: self.config,
            state: self.state.snapshot(),
            phase: self.phase,
            header: self.header,
            consumed: Weight { ref_time: 0, proof_size: 0 },
            extrinsics: Vec::new(),
            events: Vec::new(),
            best_number: self.best_number,
            best_hash: self.best_hash,
        };
        match block.initialize_block(header) {
            Err(e) => {
                return Err(e);
            },
            Ok(()) => {},
        }
        let ghost zero = Weight { ref_time: 0, proof_size: 0 };
        let mut i: usize = 0;
        while i < txs.len()
            invariant
                zero == (Weight { ref_time: 0, proof_size: 0 }),
                *self == *old(self),
                self.wf(),
                self.phase != Phase::Building,
                header.number == self.best_number + 1,
                header.parent_hash == self.best_hash,
                block.wf(),
                block.config == self.config,
                block.phase == Phase::Building,
                block.header == header,
                block.best_number == self.best_number,
                block.best_hash == self.best_hash,
                0 <= i <= txs@.len(),
                block.extrinsics@ == txs@.take(i as int),
                apply_all(self.config, header.number, zero, self.state@, txs@.take(i as int))
                    == Some((block.state@, block.consumed)),
            decreases txs.len() - i,
        {
            let t = txs[i];
            let ghost pre_state = block.state@;
            let ghost pre_consumed = block.consumed;
            proof {
                assert(txs@.take(i + 1).drop_last() =~= txs@.take(i as int));
                assert(txs@.take(i + 1).last() == t);
            }
            match block.apply_extrinsic(t) {
                Ok(_) => {},
                Err(_) => {
                    proof {
                        assert(apply_spec(self.config, header.number, pre_consumed, pre_state, t).result is Err);
                        assert(apply_all(self.config, header.number, zero, self.state@, txs@.take(i + 1)) is None);
                        lemma_apply_all_prefix(self.config, header.number, zero, self.state@, txs@, i + 1);
                    }
                    return Err(BlockError::InvalidTransaction);
                },
            }
            proof {
                assert(block.extrinsics@ =~= txs@.take(i + 1));
            }
            i = i + 1;
        }
        proof {
            assert(txs@.take(i as int) =~= txs@);
        }
        let fin = match block.finalize_block() {
            Ok(h) => h,
            Err(e) => {
                return Err(e);
            },
        };
        if fin.state_root != header.state_root || fin.extrinsics_root != header.extrinsics_root {
            return Err(BlockError::RootMismatch);
        }
        *self = block;
        Ok(header)
    }

    /// Turns inherent data into transactions to inject; none are defined yet.
    pub fn inherent_extrinsics(&self, data: &InherentData) -> (r: Vec<Transaction>)
        ensures
            r@.len() == 0,
    {
        Vec::new()
    }

    /// Checks the block-wide data: the timestamp may not go backwards.
    pub fn check_inherents(&self, data: &InherentData) -> (r: Result<(), BlockError>)
        ensures
            r is Err <==> (data.timestamp matches Some(t) && t < self.state@.now),
            r is Err ==> r == Err::<(), BlockError>(BlockError::InherentRejected),
    {
        match data.timestamp {
            Some(t) => if t < self.state.now {
                Err(BlockError::InherentRejected)
            } else {
                Ok(())
            },
            None => Ok(()),
        }
    }

    /// The read-only pipeline run for pool admission: the checks are those
    /// of the next block on an empty budget, and nothing is changed.
    pub fn validate_transaction(&self, tx: &Transaction) -> (r: Result<ValidTransaction, TxError>)
        ensures
            ({
                let number = if self.best_number == u64::MAX {
                    u64::MAX
                } else {
                    (self.best_number + 1) as u64
                };
                let zero = Weight { ref_time: 0, proof_size: 0 };
                let acct = account_in(self.state@.accounts, tx.sender);
                match rejection(self.config, number, zero, acct, *tx) {
                    Some(e) => r == Err::<ValidTransaction, TxError>(e),
                    None => r matches Ok(v) && v.priority == fee_of(self.config, *tx) && v.longevity
                        == match tx.era {
                        Era::Immortal => u64::MAX,
                        Era::Mortal { death, .. } => (death - number) as u64,
                    },
                }
            }),
    {
        let number = if self.best_number == u64::MAX {
            u64::MAX
        } else {
            self.best_number + 1
        };
        let zero = Weight { ref_time: 0, proof_size: 0 };
        let acct = self.state.account(tx.sender);
        match validate_checks(&self.config, number, &zero, &acct, tx) {
            Some(e) => Err(e),
            None => {
                proof {
                    reveal_with_fuel(crate::extension::rejection_from, 10);
                }
                let priority = match crate::extension::compute_fee(&self.config, tx) {
                    Some(f) => f,
                    None => {
                        return Err(TxError::InsufficientBalance);
                    },
                };
                let longevity = match tx.era {
                    Era::Immortal => u64::MAX,
                    Era::Mortal { death, .. } => death - number,
                };
                Ok(ValidTransaction { priority, longevity })
            },
        }
    }
}

} // verus!
