//! One proof task, step by step: what to ask of the backend next and how
//! each answer ends or continues the task.

use crate::proof_system::{FailureKind, ProofResult};
use vstd::prelude::*;

verus! {

/// Where a task stands.
#[derive(Clone, Copy, Debug, PartialEq, Eq, Structural)]
pub enum ProofStage {
    /// The backend is proving the trace.
    Proving,
    /// The proof is being turned into bytes.
    Serializing,
    /// The bytes are being turned back into a proof.
    Deserializing,
    /// The backend is verifying the proof read back.
    Verifying,
    /// The task has ended.
    Finished,
}

/// What the backend or the codec answered.
#[derive(Debug)]
pub enum BackendEvent {
    /// The backend produced a proof.
    Proved,
    /// The backend faulted while proving.
    ProverFaulted,
    /// The proof was turned into these bytes.
    Serialized { bytes: Vec<u8> },
    /// The proof could not be turned into bytes.
    SerializationFailed,
    /// The bytes were turned back into a proof.
    Deserialized,
    /// The bytes could not be turned back into a proof.
    DeserializationFailed,
    /// The backend accepted the proof.
    Verified,
    /// The backend refused the proof.
    Rejected,
}

/// What the task wants done next.
#[derive(Debug)]
pub enum TaskStep {
    /// Turn the proof into bytes.
    Serialize,
    /// Turn the bytes of the task back into a proof.
    Deserialize,
    /// Verify the proof read back.
    Verify,
    /// Nothing more: the task has ended with this result.
    Done { result: Result<(Vec<u8>, usize), FailureKind> },
    /// The answer does not belong to the stage of the task and was ignored.
    Ignored,
}

/// One window's way through the backend: prove, serialize, deserialize,
/// verify. The first failure ends it.
#[derive(Debug)]
pub struct ProofTask {
    stage: ProofStage,
    proof_bytes: Vec<u8>,
}

/// What a task holds.
#[verifier::ext_equal]
pub ghost struct TaskView {
    pub stage: ProofStage,
    pub proof_bytes: Seq<u8>,
}

/// What an answer is, with the bytes it brings.
pub ghost enum EventView {
    Proved,
    ProverFaulted,
    Serialized { bytes: Seq<u8> },
    SerializationFailed,
    Deserialized,
    DeserializationFailed,
    Verified,
    Rejected,
}

/// What a step is, with the bytes it hands out.
#[verifier::ext_equal]
pub ghost enum StepView {
    Serialize,
    Deserialize,
    Verify,
    Done { result: Result<(Seq<u8>, usize), FailureKind> },
    Ignored,
}

impl View for BackendEvent {
    type V = EventView;

    open spec fn view(&self) -> EventView {
        match *self {
            BackendEvent::Proved => EventView::Proved,
            BackendEvent::ProverFaulted => EventView::ProverFaulted,
            BackendEvent::Serialized { bytes } => EventView::Serialized { bytes: bytes@ },
            BackendEvent::SerializationFailed => EventView::SerializationFailed,
            BackendEvent::Deserialized => EventView::Deserialized,
            BackendEvent::DeserializationFailed => EventView::DeserializationFailed,
            BackendEvent::Verified => EventView::Verified,
            BackendEvent::Rejected => EventView::Rejected,
        }
    }
}

impl View for TaskStep {
    type V = StepView;

    open spec fn view(&self) -> StepView {
        match *self {
            TaskStep::Serialize => StepView::Serialize,
            TaskStep::Deserialize => StepView::Deserialize,
            TaskStep::Verify => StepView::Verify,
            TaskStep::Done { result } => StepView::Done {
                result: match result {
                    Ok((bytes, size)) => Ok((bytes@, size)),
                    Err(kind) => Err(kind),
                },
            },
            TaskStep::Ignored => StepView::Ignored,
        }
    }
}

impl View for ProofTask {
    type V = TaskView;

    closed spec fn view(&self) -> TaskView {
        TaskView { stage: self.stage, proof_bytes: self.proof_bytes@ }
    }
}

/// A task that ends in failure.
pub open spec fn failed(kind: FailureKind) -> (TaskView, StepView) {
    (TaskView { stage: ProofStage::Finished, proof_bytes: Seq::empty() }, StepView::Done { result: Err(kind) })
}

impl TaskView {
    /// A task that has just been handed to the backend.
    pub open spec fn started() -> TaskView {
        TaskView { stage: ProofStage::Proving, proof_bytes: Seq::empty() }
    }

    /// The task after an answer, and what it wants done next. An answer
    /// that does not belong to the stage changes nothing.
    pub open spec fn on_event(self, event: EventView) -> (TaskView, StepView) {
        match (self.stage, event) {
            (ProofStage::Proving, EventView::Proved) => (
                TaskView { stage: ProofStage::Serializing, ..self },
                StepView::Serialize,
            ),
            (ProofStage::Proving, EventView::ProverFaulted) => failed(FailureKind::ConstraintViolation),
            (ProofStage::Serializing, EventView::Serialized { bytes }) => (
                TaskView { stage: ProofStage::Deserializing, proof_bytes: bytes },
                StepView::Deserialize,
            ),
            (ProofStage::Serializing, EventView::SerializationFailed) => failed(FailureKind::SerializationFailure),
            (ProofStage::Deserializing, EventView::Deserialized) => (
                TaskView { stage: ProofStage::Verifying, ..self },
                StepView::Verify,
            ),
            (ProofStage::Deserializing, EventView::DeserializationFailed) => failed(
                FailureKind::DeserializationFailure,
            ),
            (ProofStage::Verifying, EventView::Verified) => (
                TaskView { stage: ProofStage::Finished, proof_bytes: Seq::empty() },
                StepView::Done { result: Ok((self.proof_bytes, self.proof_bytes.len() as usize)) },
            ),
            (ProofStage::Verifying, EventView::Rejected) => failed(FailureKind::BackendVerificationFailure),
            _ => (self, StepView::Ignored),
        }
    }
}

impl ProofTask {
    /// A task whose trace has just been handed to the backend.
    pub fn new() -> (task: Self)
        ensures
            task@ == TaskView::started(),
    {
        ProofTask { stage: ProofStage::Proving, proof_bytes: Vec::new() }
    }

    /// Where the task stands.
    pub fn stage(&self) -> (stage: ProofStage)
        ensures
            stage == self@.stage,
    {
        self.stage
    }

    /// The bytes of the proof, once it has been serialized.
    pub fn proof_bytes(&self) -> (bytes: &Vec<u8>)
        ensures
            bytes@ == self@.proof_bytes,
    {
        &self.proof_bytes
    }

    /// Takes the backend's answer and says what to do next.
    pub fn on_event(&mut self, event: BackendEvent) -> (step: TaskStep)
        ensures
            (final(self)@, step@) == old(self)@.on_event(event@),
    {
        match (self.stage, event) {
            (ProofStage::Proving, BackendEvent::Proved) => {
                self.stage = ProofStage::Serializing;
                TaskStep::Serialize
            },
            (ProofStage::Proving, BackendEvent::ProverFaulted) => self.fail(FailureKind::ConstraintViolation),
            (ProofStage::Serializing, BackendEvent::Serialized { bytes }) => {
                self.stage = ProofStage::Deserializing;
                self.proof_bytes = bytes;
                TaskStep::Deserialize
            },
            (ProofStage::Serializing, BackendEvent::SerializationFailed) => self.fail(
                FailureKind::SerializationFailure,
            ),
            (ProofStage::Deserializing, BackendEvent::Deserialized) => {
                self.stage = ProofStage::Verifying;
                TaskStep::Verify
            },
            (ProofStage::Deserializing, BackendEvent::DeserializationFailed) => self.fail(
                FailureKind::DeserializationFailure,
            ),
            (ProofStage::Verifying, BackendEvent::Verified) => {
                self.stage = ProofStage::Finished;
                let mut bytes: Vec<u8> = Vec::new();
                std::mem::swap(&mut bytes, &mut self.proof_bytes);
                let size = bytes.len();
                TaskStep::Done { result: Ok((bytes, size)) }
            },
            (ProofStage::Verifying, BackendEvent::Rejected) => self.fail(FailureKind::BackendVerificationFailure),
            _ => TaskStep::Ignored,
        }
    }

    fn fail(&mut self, kind: FailureKind) -> (step: TaskStep)
        ensures
            (final(self)@, step@) == failed(kind),
    {
        self.stage = ProofStage::Finished;
        self.proof_bytes = Vec::new();
        TaskStep::Done { result: Err(kind) }
    }
}

/// The verification time that counts for a result: the time measured,
/// unless the task ended before verification began.
pub open spec fn counted_verification_time(result: Result<(Seq<u8>, usize), FailureKind>, measured_ms: u64) -> u64 {
    match result {
        Err(FailureKind::ConstraintViolation) | Err(FailureKind::SerializationFailure) => 0,
        _ => measured_ms,
    }
}

/// Puts the result of a task together with its times. A task that ended
/// before verification began has no verification time.
pub fn conclude(
    result: Result<(Vec<u8>, usize), FailureKind>,
    generation_time_ms: u64,
    verification_time_ms: u64,
) -> (concluded: ProofResult)
    ensures
        concluded.result == result,
        concluded.generation_time_ms == generation_time_ms,
        concluded.verification_time_ms == counted_verification_time(
            match result {
                Ok((bytes, size)) => Ok((bytes@, size)),
                Err(kind) => Err(kind),
            },
            verification_time_ms,
        ),
{
    let verification_time_ms = match &result {
        Err(FailureKind::ConstraintViolation) => 0,
        Err(FailureKind::SerializationFailure) => 0,
        _ => verification_time_ms,
    };
    ProofResult { result, generation_time_ms, verification_time_ms }
}

} // verus!
