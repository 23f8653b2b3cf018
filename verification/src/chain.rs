//! The order in which the interceptor chain of one phase runs: for each script
//! its run record is stored, the script runs, a replacement body it asks for
//! is prepared, the run's outcome and the capture's tags are stored; after the
//! last script the message itself is stored. A storage failure ends the chain
//! with the failure recorded on the capture and an error answer to the client.
use vstd::prelude::*;
use vstd::string::*;

use crate::model::{CaptureError, ErrorStage, InterceptorKind};

verus! {

/// Where the chain stands.
#[derive(Debug, Clone, Copy, PartialEq, Eq, Structural)]
pub enum ChainStage {
    /// Waiting for the run record of the current script to be stored.
    Begin,
    /// Waiting for the current script to run and its effects to be applied.
    Run,
    /// Waiting for the replacement body the script asked for.
    Prepare,
    /// Waiting for the run's outcome to be stored.
    Record,
    /// Waiting for the capture's tags to be stored.
    Tags,
    /// Waiting for the message, with its final body, to be stored.
    Store,
    /// Finished or failed; nothing more happens.
    Done,
}

/// What the I/O layer reports back.
#[derive(Debug, PartialEq, Eq)]
pub enum ChainEvent {
    /// A store operation finished, or failed with this message.
    Stored(Result<(), String>),
    /// The script ran and its effects were applied; `prepare` when they ask
    /// for a replacement body to be prepared.
    Ran { prepare: bool },
    /// The replacement body was prepared (or its failure noted on the run).
    Prepared,
}

/// What the I/O layer does next.
#[derive(Debug, Clone, PartialEq, Eq)]
pub enum ChainAction {
    /// Store the run record of the script at `position`.
    BeginRun { position: usize },
    /// Run the script at `position` and apply its effects.
    Execute { position: usize },
    /// Prepare the replacement body the script at `position` asked for.
    Prepare { position: usize },
    /// Store the outcome of the run of the script at `position`.
    Record { position: usize },
    /// Store the capture's tags.
    StoreTags,
    /// Store the message with its final body.
    StoreMessage,
    /// The chain is done: go on with the message.
    Forward,
    /// Record `error` on the capture and answer the client with status 500 and
    /// `answer`.
    Fail { error: CaptureError, answer: String },
    /// The event does not fit where the chain stands; nothing changed.
    Unexpected,
}

/// The answer to the client when the capture's storage fails.
pub open spec fn storage_answer() -> Seq<char> {
    "capture storage unavailable"@
}

/// The failure that ends a chain, as plain values.
pub open spec fn chain_failure(
    stage: ErrorStage,
    kind: Seq<char>,
    message: Seq<char>,
    answer: Seq<char>,
    a: ChainAction,
) -> bool {
    a matches ChainAction::Fail { error, answer: text } && error.stage == stage && error.kind@ == kind
        && error.message@ == message && text@ == answer
}

/// The interceptor chain of one phase over `total` scripts.
pub struct InterceptorChain {
    phase: InterceptorKind,
    total: usize,
    position: usize,
    stage: ChainStage,
}

/// Whether a stage works on the script at the current position.
pub open spec fn per_script(stage: ChainStage) -> bool {
    stage == ChainStage::Begin || stage == ChainStage::Run || stage == ChainStage::Prepare || stage
        == ChainStage::Record || stage == ChainStage::Tags
}

/// How the chain moves: the stage and position after `event`, and what to do.
pub open spec fn chain_step(
    phase: InterceptorKind,
    total: usize,
    position: usize,
    stage: ChainStage,
    event: ChainEvent,
    next_position: usize,
    next_stage: ChainStage,
    action: ChainAction,
) -> bool {
    let unchanged = next_position == position && next_stage == stage;
    match (stage, event) {
        (ChainStage::Begin, ChainEvent::Stored(Ok(()))) => next_position == position && next_stage
            == ChainStage::Run && action == ChainAction::Execute { position },
        (ChainStage::Begin, ChainEvent::Stored(Err(m))) => next_position == position && next_stage
            == ChainStage::Done && chain_failure(
            ErrorStage::Interceptor,
            "interceptor_history_store_failed"@,
            m@,
            storage_answer(),
            action,
        ),
        (ChainStage::Run, ChainEvent::Ran { prepare }) => next_position == position && if prepare {
            next_stage == ChainStage::Prepare && action == ChainAction::Prepare { position }
        } else {
            next_stage == ChainStage::Record && action == ChainAction::Record { position }
        },
        (ChainStage::Prepare, ChainEvent::Prepared) => next_position == position && next_stage
            == ChainStage::Record && action == ChainAction::Record { position },
        (ChainStage::Record, ChainEvent::Stored(Ok(()))) => next_position == position && next_stage
            == ChainStage::Tags && action == ChainAction::StoreTags,
        (ChainStage::Record, ChainEvent::Stored(Err(m))) => next_position == position && next_stage
            == ChainStage::Done && chain_failure(
            ErrorStage::Interceptor,
            "interceptor_history_store_failed"@,
            m@,
            storage_answer(),
            action,
        ),
        (ChainStage::Tags, ChainEvent::Stored(Ok(()))) => if position + 1 < total {
            next_position == position + 1 && next_stage == ChainStage::Begin && action
                == ChainAction::BeginRun { position: (position + 1) as usize }
        } else {
            next_position == position && next_stage == ChainStage::Store && action == ChainAction::StoreMessage
        },
        (ChainStage::Tags, ChainEvent::Stored(Err(m))) => next_position == position && next_stage
            == ChainStage::Done && chain_failure(
            ErrorStage::Interceptor,
            "capture_tags_store_failed"@,
            m@,
            storage_answer(),
            action,
        ),
        (ChainStage::Store, ChainEvent::Stored(Ok(()))) => next_position == position && next_stage
            == ChainStage::Done && action == ChainAction::Forward,
        (ChainStage::Store, ChainEvent::Stored(Err(m))) => next_position == position && next_stage
            == ChainStage::Done && match phase {
            InterceptorKind::Request => chain_failure(
                ErrorStage::RequestBody,
                "capture_update_failed"@,
                m@,
                storage_answer(),
                action,
            ),
            InterceptorKind::Response => chain_failure(
                ErrorStage::ResponseBody,
                "capture_response_update_failed"@,
                m@,
                "failed to persist response metadata"@,
                action,
            ),
        },
        _ => unchanged && action == ChainAction::Unexpected,
    }
}

fn fail_with(stage: ErrorStage, kind: &str, message: String, answer: &str) -> (r: ChainAction)
    ensures
        chain_failure(stage, kind@, message@, answer@, r),
{
    ChainAction::Fail {
        error: CaptureError { stage, kind: kind.to_string(), message },
        answer: answer.to_string(),
    }
}

impl InterceptorChain {
    /// The position never passes the chain's end, and a stage that works on
    /// a script has one to work on.
    #[verifier::type_invariant]
    spec fn in_range(self) -> bool {
        &&& self.position <= self.total
        &&& per_script(self.stage) ==> self.position < self.total
    }

    /// The phase whose scripts the chain runs.
    pub closed spec fn phase(&self) -> InterceptorKind {
        self.phase
    }

    /// How many scripts the chain runs.
    pub closed spec fn total(&self) -> usize {
        self.total
    }

    /// The script the chain is at.
    pub closed spec fn position(&self) -> usize {
        self.position
    }

    /// Where the chain stands.
    pub closed spec fn stage(&self) -> ChainStage {
        self.stage
    }

    /// A chain over `total` scripts of `phase`, and its first action: store the
    /// run record of the first script, or, with no script, store the message.
    pub fn start(phase: InterceptorKind, total: usize) -> (r: (Self, ChainAction))
        ensures
            r.0.phase() == phase,
            r.0.total() == total,
            r.0.position() == 0,
            total == 0 ==> r.0.stage() == ChainStage::Store && r.1 == ChainAction::StoreMessage,
            total > 0 ==> r.0.stage() == ChainStage::Begin && r.1 == (ChainAction::BeginRun { position: 0 }),
    {
        if total == 0 {
            (InterceptorChain { phase, total, position: 0, stage: ChainStage::Store }, ChainAction::StoreMessage)
        } else {
            (
                InterceptorChain { phase, total, position: 0, stage: ChainStage::Begin },
                ChainAction::BeginRun { position: 0 },
            )
        }
    }

    /// Moves the chain on by what the I/O layer reports and says what to do
    /// next.
    pub fn step(&mut self, event: ChainEvent) -> (r: ChainAction)
        ensures
            final(self).phase() == old(self).phase(),
            final(self).total() == old(self).total(),
            chain_step(
                old(self).phase(),
                old(self).total(),
                old(self).position(),
                old(self).stage(),
                event,
                final(self).position(),
                final(self).stage(),
                r,
            ),
    {
        proof {
            use_type_invariant(&*self);
        }
        let phase = self.phase;
        let total = self.total;
        let position = self.position;
        let (next_position, next_stage, action) = match (self.stage, event) {
            (ChainStage::Begin, ChainEvent::Stored(Ok(()))) => (
                position,
                ChainStage::Run,
                ChainAction::Execute { position },
            ),
            (ChainStage::Begin, ChainEvent::Stored(Err(m))) => (
                position,
                ChainStage::Done,
                fail_with(ErrorStage::Interceptor, "interceptor_history_store_failed", m, "capture storage unavailable"),
            ),
            (ChainStage::Run, ChainEvent::Ran { prepare }) => if prepare {
                (position, ChainStage::Prepare, ChainAction::Prepare { position })
            } else {
                (position, ChainStage::Record, ChainAction::Record { position })
            },
            (ChainStage::Prepare, ChainEvent::Prepared) => (
                position,
                ChainStage::Record,
                ChainAction::Record { position },
            ),
            (ChainStage::Record, ChainEvent::Stored(Ok(()))) => (position, ChainStage::Tags, ChainAction::StoreTags),
            (ChainStage::Record, ChainEvent::Stored(Err(m))) => (
                position,
                ChainStage::Done,
                fail_with(ErrorStage::Interceptor, "interceptor_history_store_failed", m, "capture storage unavailable"),
            ),
            (ChainStage::Tags, ChainEvent::Stored(Ok(()))) => if position + 1 < total {
                (position + 1, ChainStage::Begin, ChainAction::BeginRun { position: position + 1 })
            } else {
                (position, ChainStage::Store, ChainAction::StoreMessage)
            },
            (ChainStage::Tags, ChainEvent::Stored(Err(m))) => (
                position,
                ChainStage::Done,
                fail_with(ErrorStage::Interceptor, "capture_tags_store_failed", m, "capture storage unavailable"),
            ),
            (ChainStage::Store, ChainEvent::Stored(Ok(()))) => (position, ChainStage::Done, ChainAction::Forward),
            (ChainStage::Store, ChainEvent::Stored(Err(m))) => match phase {
                InterceptorKind::Request => (
                    position,
                    ChainStage::Done,
                    fail_with(ErrorStage::RequestBody, "capture_update_failed", m, "capture storage unavailable"),
                ),
                InterceptorKind::Response => (
                    position,
                    ChainStage::Done,
                    fail_with(
                        ErrorStage::ResponseBody,
                        "capture_response_update_failed",
                        m,
                        "failed to persist response metadata",
                    ),
                ),
            },
            (stage, _) => (position, stage, ChainAction::Unexpected),
        };
        *self = InterceptorChain { phase, total, position: next_position, stage: next_stage };
        action
    }
}

/// The chain visits the scripts in order: from a script's tags being stored it
/// goes on to begin the next script, or, after the last, to store the message;
/// a failure ends it for good.
pub proof fn law_chain_visits_scripts_in_order(
    phase: InterceptorKind,
    total: usize,
    position: usize,
    stage: ChainStage,
    event: ChainEvent,
    next_position: usize,
    next_stage: ChainStage,
    action: ChainAction,
)
    requires
        chain_step(phase, total, position, stage, event, next_position, next_stage, action),
    ensures
        next_position == position || (next_position == position + 1 && stage == ChainStage::Tags
            && next_stage == ChainStage::Begin),
        action matches ChainAction::BeginRun { position: p } ==> p == next_position && p == position + 1,
        action matches ChainAction::Fail { .. } ==> next_stage == ChainStage::Done,
        stage == ChainStage::Done ==> next_stage == ChainStage::Done && action == ChainAction::Unexpected,
{
}

} // verus!
