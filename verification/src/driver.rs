//! The decisions of the loop that drives derivation: what to do next, given
//! what the pipeline, the validator and the chain provider answered.

use vstd::prelude::*;

verus! {

/// A block's hash and number.
#[derive(Clone, Copy, Debug, PartialEq, Eq)]
pub struct BlockId {
    pub hash: [u8; 32],
    pub number: u64,
}

/// A block as the driver sees it.
#[derive(Clone, Copy, Debug, PartialEq, Eq)]
pub struct BlockInfo {
    pub hash: [u8; 32],
    pub number: u64,
    pub parent_hash: [u8; 32],
    pub timestamp: u64,
}

/// An L2 block with the L1 block that it was derived from. The cursor of the
/// loop is the last such block that was accepted.
#[derive(Clone, Copy, Debug, PartialEq, Eq)]
pub struct L2BlockInfo {
    pub block_info: BlockInfo,
    pub l1_origin: BlockId,
    pub seq_num: u64,
}

/// The answer that the loop waits for.
#[derive(Clone, Copy, Debug, PartialEq, Eq)]
pub enum Phase {
    /// The pipeline was asked to step.
    Stepping,
    /// The pipeline was asked for the next attributes.
    Pulling,
    /// The validator was handed attributes.
    Validating,
    /// The provider was asked for the block after the cursor.
    Advancing,
    /// Validation failed and the loop has ended.
    Halted,
}

/// The state of the loop between two answers.
#[derive(Clone, Copy, Debug, PartialEq, Eq)]
pub struct Driver {
    pub cursor: L2BlockInfo,
    pub phase: Phase,
}

/// An answer from outside.
#[derive(Clone, Copy, Debug, PartialEq, Eq)]
pub enum Event {
    /// The pipeline stepped, or failed to.
    Stepped { ok: bool },
    /// The pipeline had attributes ready, or none.
    Pulled { ready: bool },
    /// The validator accepted the attributes, or refused them.
    Validated { valid: bool },
    /// The provider gave the block that was asked for, or failed to.
    Fetched { block: Option<L2BlockInfo> },
}

/// What the loop asks for next.
#[derive(Clone, Copy, Debug, PartialEq, Eq)]
pub enum Action {
    /// Step the pipeline from this cursor.
    Step(L2BlockInfo),
    /// Ask the pipeline for the next attributes.
    Pull,
    /// Hand the attributes to the validator.
    Validate,
    /// Fetch the L2 block with this number.
    Fetch(u64),
    /// Stop.
    Halt,
}

/// What a loop in state `d` is waiting to have done.
pub open spec fn pending(d: Driver) -> Action {
    match d.phase {
        Phase::Stepping => Action::Step(d.cursor),
        Phase::Pulling => Action::Pull,
        Phase::Validating => Action::Validate,
        Phase::Advancing => Action::Fetch((d.cursor.block_info.number + 1) as u64),
        Phase::Halted => Action::Halt,
    }
}

/// The state after the answer `event`. A failed step is followed by a pull
/// like a successful one; no attributes lead back to a step with nothing
/// changed; refused attributes end the loop; accepted ones lead to a fetch;
/// a fetched block replaces the cursor and a failed fetch leaves it. An answer
/// that the loop was not waiting for changes nothing.
pub open spec fn after(d: Driver, event: Event) -> Driver {
    match (d.phase, event) {
        (Phase::Stepping, Event::Stepped { ok }) => Driver { cursor: d.cursor, phase: Phase::Pulling },
        (Phase::Pulling, Event::Pulled { ready }) => Driver {
            cursor: d.cursor,
            phase: if ready { Phase::Validating } else { Phase::Stepping },
        },
        (Phase::Validating, Event::Validated { valid }) => Driver {
            cursor: d.cursor,
            phase: if valid { Phase::Advancing } else { Phase::Halted },
        },
        (Phase::Advancing, Event::Fetched { block }) => Driver {
            cursor: match block {
                Some(next) => next,
                None => d.cursor,
            },
            phase: Phase::Stepping,
        },
        _ => d,
    }
}

impl Driver {
    /// A loop that starts at `cursor`, about to step the pipeline.
    pub fn new(cursor: L2BlockInfo) -> (r: (Driver, Action))
        ensures
            r.0 == (Driver { cursor, phase: Phase::Stepping }),
            r.1 == Action::Step(cursor),
    {
        (Driver { cursor, phase: Phase::Stepping }, Action::Step(cursor))
    }

    /// Takes an answer and says what to do next. The block after the cursor
    /// must have a number: the cursor is below the largest one when accepted
    /// attributes are reported.
    pub fn on_event(self, event: Event) -> (r: (Driver, Action))
        requires
            self.phase == Phase::Validating && event == (Event::Validated { valid: true })
                ==> self.cursor.block_info.number < u64::MAX,
            self.phase == Phase::Advancing && !(event is Fetched) ==> self.cursor.block_info.number
                < u64::MAX,
        ensures
            r.0 == after(self, event),
            r.1 == pending(after(self, event)),
    {
        match (self.phase, event) {
            (Phase::Stepping, Event::Stepped { ok: _ }) => (
                Driver { cursor: self.cursor, phase: Phase::Pulling },
                Action::Pull,
            ),
            (Phase::Pulling, Event::Pulled { ready }) => if ready {
                (Driver { cursor: self.cursor, phase: Phase::Validating }, Action::Validate)
            } else {
                (Driver { cursor: self.cursor, phase: Phase::Stepping }, Action::Step(self.cursor))
            },
            (Phase::Validating, Event::Validated { valid }) => if valid {
                (
                    Driver { cursor: self.cursor, phase: Phase::Advancing },
                    Action::Fetch(self.cursor.block_info.number + 1),
                )
            } else {
                (Driver { cursor: self.cursor, phase: Phase::Halted }, Action::Halt)
            },
            (Phase::Advancing, Event::Fetched { block }) => {
                let cursor = match block {
                    Some(next) => next,
                    None => self.cursor,
                };
                (Driver { cursor, phase: Phase::Stepping }, Action::Step(cursor))
            },
            (Phase::Stepping, _) => (self, Action::Step(self.cursor)),
            (Phase::Pulling, _) => (self, Action::Pull),
            (Phase::Validating, _) => (self, Action::Validate),
            (Phase::Advancing, _) => (self, Action::Fetch(self.cursor.block_info.number + 1)),
            (Phase::Halted, _) => (self, Action::Halt),
        }
    }
}

/// A failed fetch of the next block leaves the cursor as it was, and the loop
/// goes on: it steps the pipeline again from the same cursor.
pub proof fn lemma_failed_fetch_keeps_cursor(d: Driver)
    requires
        d.phase == Phase::Advancing,
    ensures
        after(d, Event::Fetched { block: None }).cursor == d.cursor,
        pending(after(d, Event::Fetched { block: None })) == Action::Step(d.cursor),
{
}

/// A failed step never ends the loop and never moves the cursor: the loop
/// asks the pipeline for attributes as after a successful step.
pub proof fn lemma_failed_step_goes_on(d: Driver)
    requires
        d.phase == Phase::Stepping,
    ensures
        after(d, Event::Stepped { ok: false }) == after(d, Event::Stepped { ok: true }),
        after(d, Event::Stepped { ok: false }).cursor == d.cursor,
        pending(after(d, Event::Stepped { ok: false })) == Action::Pull,
{
}

/// The cursor moves only when the block after an accepted one was fetched.
pub proof fn lemma_cursor_moves_only_on_fetch(d: Driver, event: Event)
    ensures
        after(d, event).cursor != d.cursor ==> d.phase == Phase::Advancing && event
            == (Event::Fetched { block: Some(after(d, event).cursor) }),
{
}

/// Refused attributes end the loop for good: whatever comes after, the loop
/// stays halted and the cursor stays where it was.
pub proof fn lemma_refusal_is_final(d: Driver, later: Event)
    requires
        d.phase == Phase::Validating,
    ensures
        after(d, Event::Validated { valid: false }).phase == Phase::Halted,
        after(after(d, Event::Validated { valid: false }), later) == after(
            d,
            Event::Validated { valid: false },
        ),
        after(d, Event::Validated { valid: false }).cursor == d.cursor,
{
}

/// No attributes: the state is as before the step, and the loop steps again.
pub proof fn lemma_no_attributes_changes_nothing(d: Driver, ok: bool)
    requires
        d.phase == Phase::Stepping,
    ensures
        after(after(d, Event::Stepped { ok }), Event::Pulled { ready: false }) == d,
{
}

} // verus!
