//! Chain ingestion engine: the decision core of one chain's polling loop.
//!
//! The loop itself performs network and database work; every decision it
//! takes — what to do with a fetch outcome, when the cursor may advance,
//! what a store failure means — is made here, as verified transitions over
//! an explicit model of the loop's phase, in-memory height and durably
//! persisted cursor.

use vstd::prelude::*;

use crate::filter::{build_batch, spec_batch};
use crate::types::{DecodedTransaction, SignatureRecord};

verus! {

/// Why a block fetch failed.
#[derive(Debug, Clone, Copy, PartialEq, Eq, Structural)]
pub enum FetchError {
    /// The request could not be sent or answered at the transport level.
    Transport,
    /// The response did not match the expected envelope or a transaction
    /// field could not be decoded.
    Malformed,
}

/// Everything one fetch attempt can come back with.
pub enum FetchOutcome {
    /// `result` was absent or null: the block is not mined yet.
    NotReady,
    /// A decoded block, with its transactions.
    Block(Vec<DecodedTransaction>),
    /// The fetch failed and will be retried.
    Failed(FetchError),
}

/// Where one chain's loop stands.
#[derive(Debug, Clone, Copy, PartialEq, Eq, Structural)]
pub enum LoopPhase {
    /// At the top of an iteration: about to check shutdown and fetch.
    Polling,
    /// A block was fetched and its batch is being stored.
    Storing,
    /// The batch is stored; the advanced cursor is being persisted.
    Advancing,
    /// A processing failure: sleeping one poll interval, height unchanged.
    RetryWait,
    /// Terminal: cancelled, or the durable cursor could not be written.
    Stopped,
}

/// One observable event in a chain's loop.
#[derive(Debug, Clone, Copy, PartialEq, Eq, Structural)]
pub enum LoopEvent {
    /// The shutdown signal was observed at the top of an iteration.
    Cancelled,
    /// A fetch completed; `has_block` when it yielded a block to store.
    Fetched { has_block: bool },
    /// The batch store completed.
    StoreDone { ok: bool },
    /// The durable cursor write completed.
    CursorSaved { ok: bool },
    /// The retry sleep elapsed.
    Woke,
}

/// Model of one chain's loop: its phase, the next height to process held in
/// memory, and the height recorded in the durable cursor.
pub struct LoopModel {
    pub phase: LoopPhase,
    pub height: int,
    pub persisted: int,
}

/// A freshly started loop: about to poll at the saved cursor height.
pub open spec fn model_init(h: int) -> LoopModel {
    LoopModel { phase: LoopPhase::Polling, height: h, persisted: h }
}

/// How one event moves the loop. Cancellation is observed only at the top of
/// an iteration; a fetch without a block and a failed store retry in place;
/// the cursor advances only after a successful store, and only a successful
/// durable write lets the loop poll on — a failed one stops the chain.
pub open spec fn model_step(m: LoopModel, e: LoopEvent) -> LoopModel {
    match e {
        LoopEvent::Cancelled => if m.phase == LoopPhase::Polling {
            LoopModel { phase: LoopPhase::Stopped, height: m.height, persisted: m.persisted }
        } else {
            m
        },
        LoopEvent::Fetched { has_block } => if m.phase == LoopPhase::Polling {
            if has_block {
                LoopModel { phase: LoopPhase::Storing, height: m.height, persisted: m.persisted }
            } else {
                LoopModel {
                    phase: LoopPhase::RetryWait,
                    height: m.height,
                    persisted: m.persisted,
                }
            }
        } else {
            m
        },
        LoopEvent::StoreDone { ok } => if m.phase == LoopPhase::Storing {
            if ok {
                LoopModel {
                    phase: LoopPhase::Advancing,
                    height: m.height + 1,
                    persisted: m.persisted,
                }
            } else {
                LoopModel {
                    phase: LoopPhase::RetryWait,
                    height: m.height,
                    persisted: m.persisted,
                }
            }
        } else {
            m
        },
        LoopEvent::CursorSaved { ok } => if m.phase == LoopPhase::Advancing {
            if ok {
                LoopModel { phase: LoopPhase::Polling, height: m.height, persisted: m.height }
            } else {
                LoopModel { phase: LoopPhase::Stopped, height: m.height, persisted: m.persisted }
            }
        } else {
            m
        },
        LoopEvent::Woke => if m.phase == LoopPhase::RetryWait {
            LoopModel { phase: LoopPhase::Polling, height: m.height, persisted: m.persisted }
        } else {
            m
        },
    }
}

/// A sequence of events applied in order.
pub open spec fn run_events(m: LoopModel, es: Seq<LoopEvent>) -> LoopModel
    decreases es.len(),
{
    if es.len() == 0 {
        m
    } else {
        model_step(run_events(m, es.drop_last()), es.last())
    }
}

/// States a loop can actually be in: the persisted cursor tracks the
/// in-memory height exactly, except between a stored block and its cursor
/// write, where memory is one ahead.
pub open spec fn model_inv(m: LoopModel) -> bool {
    match m.phase {
        LoopPhase::Advancing => m.height == m.persisted + 1,
        LoopPhase::Stopped => m.persisted <= m.height && m.height <= m.persisted + 1,
        _ => m.height == m.persisted,
    }
}

/// A fresh loop satisfies the state invariant.
pub proof fn lemma_init_inv(h: int)
    ensures
        model_inv(model_init(h)),
{
}

/// Every event preserves the state invariant, and never rewinds either the
/// in-memory height or the persisted cursor.
pub proof fn lemma_step_inv(m: LoopModel, e: LoopEvent)
    requires
        model_inv(m),
    ensures
        model_inv(model_step(m, e)),
        model_step(m, e).height >= m.height,
        model_step(m, e).persisted >= m.persisted,
{
}

/// Over any run of events from a valid state, the persisted cursor and the
/// in-memory height never decrease, and the state invariant is kept.
pub proof fn lemma_run_monotone(m: LoopModel, es: Seq<LoopEvent>)
    requires
        model_inv(m),
    ensures
        model_inv(run_events(m, es)),
        run_events(m, es).height >= m.height,
        run_events(m, es).persisted >= m.persisted,
    decreases es.len(),
{
    if es.len() > 0 {
        lemma_run_monotone(m, es.drop_last());
        lemma_step_inv(run_events(m, es.drop_last()), es.last());
    }
}

/// Running a concatenation runs the two halves in order.
pub proof fn lemma_run_append(m: LoopModel, a: Seq<LoopEvent>, b: Seq<LoopEvent>)
    ensures
        run_events(m, a + b) == run_events(run_events(m, a), b),
    decreases b.len(),
{
    if b.len() == 0 {
        assert(a + b =~= a);
    } else {
        assert((a + b).drop_last() =~= a + b.drop_last());
        assert((a + b).last() == b.last());
        lemma_run_append(m, a, b.drop_last());
    }
}

/// The events of one fully successful iteration: a block is fetched, its
/// batch stored, and the advanced cursor durably written.
pub open spec fn success_iteration() -> Seq<LoopEvent> {
    seq![
        LoopEvent::Fetched { has_block: true },
        LoopEvent::StoreDone { ok: true },
        LoopEvent::CursorSaved { ok: true },
    ]
}

/// `n` successful iterations in a row.
pub open spec fn repeat_success(n: nat) -> Seq<LoopEvent>
    decreases n,
{
    if n == 0 {
        Seq::empty()
    } else {
        repeat_success((n - 1) as nat) + success_iteration()
    }
}

/// One successful iteration advances a polling loop by exactly one block:
/// height and persisted cursor both gain one, and the loop polls on.
pub proof fn lemma_success_iteration(m: LoopModel)
    requires
        m.phase == LoopPhase::Polling,
    ensures
        ({
            let m2 = run_events(m, success_iteration());
            m2.phase == LoopPhase::Polling && m2.height == m.height + 1 && m2.persisted == m.height
                + 1
        }),
{
    let es = success_iteration();
    reveal_with_fuel(run_events, 4);
    assert(es.drop_last() =~= seq![
        LoopEvent::Fetched { has_block: true },
        LoopEvent::StoreDone { ok: true },
    ]);
    assert(es.drop_last().drop_last() =~= seq![LoopEvent::Fetched { has_block: true }]);
    assert(es.drop_last().drop_last().drop_last() =~= Seq::<LoopEvent>::empty());
    assert(run_events(m, es.drop_last().drop_last().drop_last()) == m);
    let m1 = model_step(m, LoopEvent::Fetched { has_block: true });
    let m2 = model_step(m1, LoopEvent::StoreDone { ok: true });
    assert(es.drop_last().drop_last().last() == LoopEvent::Fetched { has_block: true });
    assert(es.drop_last().last() == LoopEvent::StoreDone { ok: true });
    assert(es.last() == LoopEvent::CursorSaved { ok: true });
    assert(run_events(m, es.drop_last().drop_last()) == m1);
    assert(run_events(m, es.drop_last()) == m2);
    assert(run_events(m, es) == model_step(m2, LoopEvent::CursorSaved { ok: true }));
}

/// After `n` successful iterations from a fresh loop, the persisted cursor
/// equals the initial height plus `n`.
pub proof fn lemma_n_successful_iterations(h: int, n: nat)
    ensures
        ({
            let m = run_events(model_init(h), repeat_success(n));
            m.phase == LoopPhase::Polling && m.height == h + n && m.persisted == h + n
        }),
    decreases n,
{
    if n > 0 {
        lemma_n_successful_iterations(h, (n - 1) as nat);
        lemma_run_append(model_init(h), repeat_success((n - 1) as nat), success_iteration());
        lemma_success_iteration(run_events(model_init(h), repeat_success((n - 1) as nat)));
    }
}

/// A fetch that brings no block — not mined yet, or failed — never advances
/// the in-memory height or the persisted cursor: the loop retries in place.
pub proof fn lemma_no_block_no_advance(m: LoopModel)
    requires
        m.phase == LoopPhase::Polling,
    ensures
        ({
            let m2 = model_step(m, LoopEvent::Fetched { has_block: false });
            m2.phase == LoopPhase::RetryWait && m2.height == m.height && m2.persisted == m.persisted
        }),
{
}

/// Restarting from the durable cursor after a crash resumes at most one
/// block behind the height that was in flight and never beyond it: the
/// interrupted height is reprocessed, no block is skipped.
pub proof fn lemma_restart_reprocesses(m: LoopModel)
    requires
        model_inv(m),
    ensures
        model_init(m.persisted).height <= m.height,
        m.height <= model_init(m.persisted).height + 1,
        m.phase != LoopPhase::Advancing && m.phase != LoopPhase::Stopped ==> model_init(
            m.persisted,
        ).height == m.height,
{
}

/// One chain's loop state, as the executable engine drives it. The durable
/// cursor itself lives outside; the `persisted` field is its model, updated
/// exactly when a successful cursor write is reported.
pub struct ChainSession {
    /// Chain name the records are tagged with.
    pub chain: String,
    /// Next block height to process.
    pub height: u64,
    /// Where the loop stands.
    pub phase: LoopPhase,
    /// Model of the durably persisted cursor value.
    pub persisted: Ghost<u64>,
}

impl ChainSession {
    /// The loop model this session is at.
    pub open spec fn model(&self) -> LoopModel {
        LoopModel {
            phase: self.phase,
            height: self.height as int,
            persisted: self.persisted@ as int,
        }
    }

    /// Starts a chain's loop from the durably saved cursor height.
    pub fn begin(chain: String, saved_height: u64) -> (s: ChainSession)
        ensures
            s.model() == model_init(saved_height as int),
            s.chain == chain,
    {
        ChainSession {
            chain,
            height: saved_height,
            phase: LoopPhase::Polling,
            persisted: Ghost(saved_height),
        }
    }

    /// Observes the shutdown signal at the top of an iteration: terminal.
    pub fn observe_cancellation(&mut self)
        requires
            old(self).phase == LoopPhase::Polling,
        ensures
            final(self).model() == model_step(old(self).model(), LoopEvent::Cancelled),
            final(self).chain == old(self).chain,
    {
        self.phase = LoopPhase::Stopped;
    }

    /// Applies one fetch outcome. A block yields exactly the batch to store:
    /// its transactions with the noise filtered out, tagged with this chain.
    /// A not-yet-mined block or a failed fetch yields nothing — the store is
    /// never called for them — and sends the loop to its retry wait.
    pub fn on_fetch(&mut self, outcome: &FetchOutcome) -> (batch: Option<Vec<SignatureRecord>>)
        requires
            old(self).phase == LoopPhase::Polling,
        ensures
            final(self).chain == old(self).chain,
            match outcome {
                FetchOutcome::Block(txs) => final(self).model() == model_step(
                    old(self).model(),
                    LoopEvent::Fetched { has_block: true },
                ) && batch is Some && batch.unwrap().deep_view() == spec_batch(
                    old(self).chain.deep_view(),
                    txs.deep_view(),
                ),
                _ => final(self).model() == model_step(
                    old(self).model(),
                    LoopEvent::Fetched { has_block: false },
                ) && batch is None,
            },
    {
        match outcome {
            FetchOutcome::Block(txs) => {
                let batch = build_batch(&self.chain, txs);
                self.phase = LoopPhase::Storing;
                Some(batch)
            },
            _ => {
                self.phase = LoopPhase::RetryWait;
                None
            },
        }
    }

    /// Applies the store result for the current height's batch. On success
    /// the in-memory height advances and the returned value must be durably
    /// written as the new cursor; on failure the loop retries in place and
    /// nothing is written.
    pub fn on_store(&mut self, ok: bool) -> (cursor_to_save: Option<u64>)
        requires
            old(self).phase == LoopPhase::Storing,
            old(self).height < u64::MAX,
        ensures
            final(self).chain == old(self).chain,
            final(self).model() == model_step(old(self).model(), LoopEvent::StoreDone { ok }),
            ok ==> cursor_to_save == Some((old(self).height + 1) as u64),
            !ok ==> cursor_to_save is None,
    {
        if ok {
            self.height = self.height + 1;
            self.phase = LoopPhase::Advancing;
            Some(self.height)
        } else {
            self.phase = LoopPhase::RetryWait;
            None
        }
    }

    /// Applies the durable cursor write result. Success lets the loop poll
    /// the next height; failure is fatal for this chain — continuing without
    /// a durable checkpoint would break the at-least-once guarantee.
    pub fn on_cursor_saved(&mut self, ok: bool)
        requires
            old(self).phase == LoopPhase::Advancing,
        ensures
            final(self).chain == old(self).chain,
            final(self).model() == model_step(old(self).model(), LoopEvent::CursorSaved { ok }),
    {
        if ok {
            self.phase = LoopPhase::Polling;
            self.persisted = Ghost(self.height);
        } else {
            self.phase = LoopPhase::Stopped;
        }
    }

    /// Wakes from the retry wait: the same height is polled again.
    pub fn wake(&mut self)
        requires
            old(self).phase == LoopPhase::RetryWait,
        ensures
            final(self).chain == old(self).chain,
            final(self).model() == model_step(old(self).model(), LoopEvent::Woke),
    {
        self.phase = LoopPhase::Polling;
    }
}

} // verus!
