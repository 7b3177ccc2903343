//! The violation state machine: it halts the simulation when a proof
//! fails and lets it go on, from the origin, once the violation has been
//! acknowledged.

use crate::movement_trace::MovementTraceCollector;
use crate::proof_system::{lemma_task_leaves_flight, GeneratorView, ProofGenerator, ProofOutcome};
use crate::simulation::{Position, Velocity};
use vstd::prelude::*;

verus! {

/// What the violation notice says.
pub const CHEAT_MESSAGE: &'static str =
    "CHEATER DETECTED!\nInvalid proof verification failed!\nPress ESC to continue";

/// Whether the simulation runs or stands halted on a violation.
#[derive(Clone, Copy, Debug, PartialEq, Eq, Hash, Structural)]
pub enum GameState {
    Playing,
    CheatDetected,
}

impl Default for GameState {
    fn default() -> (state: Self)
        ensures
            state == GameState::Playing,
    {
        GameState::Playing
    }
}

/// The violation notice: shown while active.
#[derive(Debug)]
pub struct CheatDetected {
    pub message: String,
    pub is_active: bool,
}

impl Default for CheatDetected {
    fn default() -> (notice: Self)
        ensures
            !notice.is_active,
            notice.message@ == Seq::<char>::empty(),
    {
        CheatDetected { message: String::new(), is_active: false }
    }
}

/// The state machine with its notice.
#[derive(Debug)]
pub struct IntegrityState {
    state: GameState,
    notice: CheatDetected,
}

/// What the state machine holds.
#[verifier::ext_equal]
pub ghost struct IntegrityView {
    pub state: GameState,
    pub message: Seq<char>,
    pub is_active: bool,
}

impl IntegrityView {
    /// The simulation runs and nothing is shown.
    pub open spec fn playing() -> IntegrityView {
        IntegrityView { state: GameState::Playing, message: Seq::empty(), is_active: false }
    }

    /// The simulation stands halted and the notice is shown.
    pub open spec fn halted() -> IntegrityView {
        IntegrityView { state: GameState::CheatDetected, message: CHEAT_MESSAGE@, is_active: true }
    }

    /// A violation is detected: while playing, a sign of cheating halts
    /// the simulation; otherwise nothing changes.
    pub open spec fn detects(self, cheat_suspected: bool) -> bool {
        cheat_suspected && self.state == GameState::Playing
    }

    /// The notice is shown exactly while the simulation stands halted.
    pub open spec fn consistent(self) -> bool {
        self == IntegrityView::playing() || self == IntegrityView::halted()
    }
}

impl View for IntegrityState {
    type V = IntegrityView;

    closed spec fn view(&self) -> IntegrityView {
        IntegrityView { state: self.state, message: self.notice.message@, is_active: self.notice.is_active }
    }
}

impl IntegrityState {
    /// The state machine at the start: playing.
    pub fn new() -> (integrity: Self)
        ensures
            integrity@ == IntegrityView::playing(),
    {
        IntegrityState { state: GameState::Playing, notice: CheatDetected { message: String::new(), is_active: false } }
    }

    /// The current state.
    pub fn current(&self) -> (state: GameState)
        ensures
            state == self@.state,
    {
        self.state
    }

    /// Whether the systems that move the player, collect samples and submit
    /// windows may run this tick.
    pub fn systems_enabled(&self) -> (enabled: bool)
        ensures
            enabled == (self@.state == GameState::Playing),
    {
        match self.state {
            GameState::Playing => true,
            GameState::CheatDetected => false,
        }
    }

    /// The violation notice.
    pub fn notice(&self) -> (notice: &CheatDetected)
        ensures
            notice.message@ == self@.message,
            notice.is_active == self@.is_active,
    {
        &self.notice
    }

    /// Looks at the pipeline's statistics. A failure recorded while playing
    /// halts the simulation, raises the notice and drops every buffered
    /// window, so that no proof of an old window is asked for later. In
    /// every other case nothing changes.
    pub fn cheat_detection(&mut self, collector: &mut MovementTraceCollector, generator: &ProofGenerator) -> (detected:
        bool)
        requires
            generator.wf(),
            old(self)@.consistent(),
        ensures
            final(self)@.consistent(),
            detected == old(self)@.detects(generator@.stats.failed_verifications() > 0),
            detected ==> final(self)@ == IntegrityView::halted() && final(collector)@ == old(collector)@.cleared(),
            !detected ==> final(self)@ == old(self)@ && final(collector)@ == old(collector)@,
    {
        let playing = match self.state {
            GameState::Playing => true,
            GameState::CheatDetected => false,
        };
        if generator.cheat_suspected() && !self.notice.is_active && playing {
            self.notice.is_active = true;
            self.notice.message = CHEAT_MESSAGE.to_owned();
            self.state = GameState::CheatDetected;
            collector.clear();
            true
        } else {
            false
        }
    }

    /// Acknowledges the violation. While halted: the player returns to the
    /// origin at rest, every buffered window is dropped, the next window is
    /// marked as the first after a reset, the pipeline forgets its tasks and
    /// failures, the notice is taken down, and only then the simulation
    /// plays again. While playing there is nothing to acknowledge and
    /// nothing changes.
    pub fn acknowledge_violation(
        &mut self,
        position: &mut Position,
        velocity: &mut Velocity,
        collector: &mut MovementTraceCollector,
        generator: &mut ProofGenerator,
    ) -> (acknowledged: bool)
        requires
            old(generator).wf(),
            old(self)@.consistent(),
        ensures
            final(generator).wf(),
            final(self)@ == IntegrityView::playing(),
            acknowledged == (old(self)@.state == GameState::CheatDetected),
            acknowledged ==> {
                &&& *final(position) == Position::origin()
                &&& *final(velocity) == Velocity::zero()
                &&& final(collector)@ == old(collector)@.cleared().marked()
                &&& final(generator)@ == old(generator)@.reset()
            },
            !acknowledged ==> {
                &&& final(self)@ == old(self)@
                &&& *final(position) == *old(position)
                &&& *final(velocity) == *old(velocity)
                &&& final(collector)@ == old(collector)@
                &&& final(generator)@ == old(generator)@
            },
    {
        match self.state {
            GameState::Playing => false,
            GameState::CheatDetected => {
                self.notice.is_active = false;
                self.notice.message = String::new();
                *position = Position::origin();
                *velocity = Velocity::zero();
                collector.clear();
                collector.mark_next_trace_as_first_after_reset();
                generator.reset();
                self.state = GameState::Playing;
                true
            },
        }
    }
}

/// Right after an acknowledgement no violation is detected: the failures
/// that halted the simulation are forgotten before it plays again, so
/// they cannot halt it a second time.
pub proof fn lemma_no_detection_after_acknowledgement(generator: GeneratorView)
    ensures
        !IntegrityView::playing().detects(generator.reset().stats.failed_verifications() > 0),
{
}

/// A task in flight that ends in failure is counted as one failure, under
/// its kind, and adds its two times; every other count stays, the task
/// leaves the flight list, and while the simulation plays the violation is
/// detected. This is so whichever constraint the trace broke: the effects
/// depend on the outcome alone.
pub proof fn lemma_failure_is_counted_and_detected(before: GeneratorView, task: u64, outcome: ProofOutcome)
    requires
        before.active_tasks.no_duplicates(),
        before.active_tasks.contains(task),
        outcome.failure is Some,
    ensures
        ({
            let after = before.completed(task, outcome);
            &&& after.stats.failed_verifications() == before.stats.failed_verifications() + 1
            &&& after.stats.successful_verifications == before.stats.successful_verifications
            &&& after.stats.total_proofs_generated == before.stats.total_proofs_generated
            &&& after.stats.total_generation_time_ms == before.stats.total_generation_time_ms
                + outcome.generation_time_ms
            &&& after.stats.total_verification_time_ms == before.stats.total_verification_time_ms
                + outcome.verification_time_ms
            &&& after.completed_count == before.completed_count
            &&& after.next_task == before.next_task
            &&& !after.active_tasks.contains(task)
            &&& IntegrityView::playing().detects(after.stats.failed_verifications() > 0)
        }),
{
    lemma_task_leaves_flight(before.active_tasks, task);
}

} // verus!
