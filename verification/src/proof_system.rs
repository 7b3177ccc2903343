//! The proof pipeline: what is in flight, what came back, and the
//! statistics over it.

use crate::movement_air::{arithmetize, arithmetized, ArithmetizeError};
use crate::matrix::TraceMatrix;
use crate::movement_trace::{MovementTrace, MovementTraceCollector, TraceView};
use vstd::prelude::*;
use vstd::seq_lib::{commutative_foldl, lemma_fold_left_permutation};

verus! {

/// Why a window yielded no verified proof. Each kind is a sign of cheating.
#[derive(Clone, Copy, Debug, PartialEq, Eq, Structural)]
pub enum FailureKind {
    /// The proof could not be turned into bytes.
    SerializationFailure,
    /// The backend faulted while proving: the trace breaks a constraint.
    ConstraintViolation,
    /// The backend refused the proof.
    BackendVerificationFailure,
    /// The bytes could not be turned back into a proof.
    DeserializationFailure,
}

/// How one proof task ended, as far as the statistics go. Times count
/// milliseconds.
#[derive(Clone, Copy, Debug)]
pub struct ProofOutcome {
    pub failure: Option<FailureKind>,
    pub generation_time_ms: u64,
    pub verification_time_ms: u64,
}

/// What one proof task hands back: the proof's bytes with their number, or
/// the kind of failure; and the times taken, in milliseconds.
#[derive(Debug)]
pub struct ProofResult {
    pub result: Result<(Vec<u8>, usize), FailureKind>,
    pub generation_time_ms: u64,
    pub verification_time_ms: u64,
}

impl ProofOutcome {
    /// The task produced a proof that was verified.
    pub open spec fn success(self) -> bool {
        self.failure is None
    }

    /// The outcome is a sign of cheating: every failure is.
    pub open spec fn cheat_suspected_spec(&self) -> bool {
        self.failure is Some
    }

    #[verifier::when_used_as_spec(cheat_suspected_spec)]
    pub fn cheat_suspected(&self) -> (suspected: bool)
        ensures
            suspected == self.cheat_suspected_spec(),
    {
        self.failure.is_some()
    }
}

impl ProofResult {
    /// How the task ended.
    pub open spec fn outcome_spec(&self) -> ProofOutcome {
        ProofOutcome {
            failure: match self.result {
                Ok(_) => None,
                Err(kind) => Some(kind),
            },
            generation_time_ms: self.generation_time_ms,
            verification_time_ms: self.verification_time_ms,
        }
    }

    #[verifier::when_used_as_spec(outcome_spec)]
    pub fn outcome(&self) -> (outcome: ProofOutcome)
        ensures
            outcome == self.outcome_spec(),
    {
        ProofOutcome {
            failure: match &self.result {
                Ok(_) => None,
                Err(kind) => Some(*kind),
            },
            generation_time_ms: self.generation_time_ms,
            verification_time_ms: self.verification_time_ms,
        }
    }
}

/// Cumulative statistics over the outcomes recorded.
#[derive(Debug)]
pub struct ProofStats {
    total_proofs_generated: usize,
    total_generation_time_ms: u128,
    total_verification_time_ms: u128,
    successful_verifications: usize,
    failed_verifications: usize,
    serialization_failures: usize,
    constraint_violations: usize,
    backend_verification_failures: usize,
    deserialization_failures: usize,
}

/// What the statistics hold.
pub ghost struct StatsView {
    /// Proofs generated and verified.
    pub total_proofs_generated: nat,
    /// Sum of the generation times of all tasks recorded.
    pub total_generation_time_ms: nat,
    /// Sum of the verification times of all tasks recorded.
    pub total_verification_time_ms: nat,
    /// Tasks that ended in success.
    pub successful_verifications: nat,
    /// Tasks that ended in each kind of failure.
    pub serialization_failures: nat,
    pub constraint_violations: nat,
    pub backend_verification_failures: nat,
    pub deserialization_failures: nat,
}

impl StatsView {
    /// Nothing recorded.
    pub open spec fn zero() -> StatsView {
        StatsView {
            total_proofs_generated: 0,
            total_generation_time_ms: 0,
            total_verification_time_ms: 0,
            successful_verifications: 0,
            serialization_failures: 0,
            constraint_violations: 0,
            backend_verification_failures: 0,
            deserialization_failures: 0,
        }
    }

    /// Tasks that ended in failure, of whatever kind.
    pub open spec fn failed_verifications(self) -> nat {
        self.serialization_failures + self.constraint_violations + self.backend_verification_failures
            + self.deserialization_failures
    }

    /// Tasks recorded.
    pub open spec fn recorded_total(self) -> nat {
        self.successful_verifications + self.failed_verifications()
    }

    /// The statistics with the two times of one more outcome added.
    pub open spec fn timed(self, outcome: ProofOutcome) -> StatsView {
        StatsView {
            total_generation_time_ms: self.total_generation_time_ms + outcome.generation_time_ms as nat,
            total_verification_time_ms: self.total_verification_time_ms + outcome.verification_time_ms as nat,
            ..self
        }
    }

    /// The statistics with one more outcome. Every outcome adds its two
    /// times. A success also counts as a proof generated and as a
    /// successful verification; a failure also counts under its kind.
    pub open spec fn recorded(self, outcome: ProofOutcome) -> StatsView {
        let timed = self.timed(outcome);
        match outcome.failure {
            None => StatsView {
                total_proofs_generated: timed.total_proofs_generated + 1,
                successful_verifications: timed.successful_verifications + 1,
                ..timed
            },
            Some(FailureKind::SerializationFailure) => StatsView {
                serialization_failures: timed.serialization_failures + 1,
                ..timed
            },
            Some(FailureKind::ConstraintViolation) => StatsView {
                constraint_violations: timed.constraint_violations + 1,
                ..timed
            },
            Some(FailureKind::BackendVerificationFailure) => StatsView {
                backend_verification_failures: timed.backend_verification_failures + 1,
                ..timed
            },
            Some(FailureKind::DeserializationFailure) => StatsView {
                deserialization_failures: timed.deserialization_failures + 1,
                ..timed
            },
        }
    }

    /// The statistics with the outcomes recorded one after another.
    pub open spec fn recorded_all(self, outcomes: Seq<ProofOutcome>) -> StatsView {
        outcomes.fold_left(self, |stats: StatsView, outcome: ProofOutcome| stats.recorded(outcome))
    }

    /// Field by field, the sum of two statistics.
    pub open spec fn plus(self, other: StatsView) -> StatsView {
        StatsView {
            total_proofs_generated: self.total_proofs_generated + other.total_proofs_generated,
            total_generation_time_ms: self.total_generation_time_ms + other.total_generation_time_ms,
            total_verification_time_ms: self.total_verification_time_ms + other.total_verification_time_ms,
            successful_verifications: self.successful_verifications + other.successful_verifications,
            serialization_failures: self.serialization_failures + other.serialization_failures,
            constraint_violations: self.constraint_violations + other.constraint_violations,
            backend_verification_failures: self.backend_verification_failures + other.backend_verification_failures,
            deserialization_failures: self.deserialization_failures + other.deserialization_failures,
        }
    }

    /// Whole milliseconds of generation per task recorded; zero where
    /// there is none.
    pub open spec fn avg_generation_time(self) -> nat {
        if self.recorded_total() > 0 {
            self.total_generation_time_ms / self.recorded_total()
        } else {
            0
        }
    }

    /// Whole milliseconds of verification per task recorded; zero where
    /// there is none.
    pub open spec fn avg_verification_time(self) -> nat {
        if self.recorded_total() > 0 {
            self.total_verification_time_ms / self.recorded_total()
        } else {
            0
        }
    }
}

/// The order in which outcomes arrive does not matter: two sequences with
/// the same outcomes, each as often in one as in the other, leave the same
/// statistics.
pub proof fn lemma_statistics_ignore_order(stats: StatsView, first: Seq<ProofOutcome>, second: Seq<ProofOutcome>)
    requires
        first.to_multiset() == second.to_multiset(),
    ensures
        stats.recorded_all(first) == stats.recorded_all(second),
{
    let f = |stats: StatsView, outcome: ProofOutcome| stats.recorded(outcome);
    assert(commutative_foldl(f)) by {
        assert forall|x: ProofOutcome, y: ProofOutcome, v: StatsView| #[trigger] f(f(v, x), y) == f(f(v, y), x) by {}
    }
    lemma_fold_left_permutation(first, second, f, stats);
}

/// Recording outcomes adds their own statistics to what was there before.
pub proof fn lemma_statistics_are_sums(stats: StatsView, outcomes: Seq<ProofOutcome>)
    ensures
        stats.recorded_all(outcomes) == stats.plus(StatsView::zero().recorded_all(outcomes)),
    decreases outcomes.len(),
{
    if outcomes.len() > 0 {
        lemma_statistics_are_sums(stats, outcomes.drop_last());
    }
}

/// How many of the outcomes are successes.
pub open spec fn successes(outcomes: Seq<ProofOutcome>) -> nat
    decreases outcomes.len(),
{
    if outcomes.len() == 0 {
        0
    } else if outcomes.last().success() {
        successes(outcomes.drop_last()) + 1
    } else {
        successes(outcomes.drop_last())
    }
}

/// How many of the outcomes are failures of the given kind.
pub open spec fn failures_of_kind(outcomes: Seq<ProofOutcome>, kind: FailureKind) -> nat
    decreases outcomes.len(),
{
    if outcomes.len() == 0 {
        0
    } else if outcomes.last().failure == Some(kind) {
        failures_of_kind(outcomes.drop_last(), kind) + 1
    } else {
        failures_of_kind(outcomes.drop_last(), kind)
    }
}

/// The sum of the generation times of the outcomes.
pub open spec fn generation_time_sum(outcomes: Seq<ProofOutcome>) -> nat
    decreases outcomes.len(),
{
    if outcomes.len() == 0 {
        0
    } else {
        generation_time_sum(outcomes.drop_last()) + outcomes.last().generation_time_ms as nat
    }
}

/// The sum of the verification times of the outcomes.
pub open spec fn verification_time_sum(outcomes: Seq<ProofOutcome>) -> nat
    decreases outcomes.len(),
{
    if outcomes.len() == 0 {
        0
    } else {
        verification_time_sum(outcomes.drop_last()) + outcomes.last().verification_time_ms as nat
    }
}

/// After `outcomes` are recorded, in whatever order they came, each
/// statistic is what it was plus its count or sum over all of them: the
/// successes count as proofs generated and verified, every other outcome
/// counts as a failure, under its kind, and both time sums grow by the
/// times of every outcome, failed or not.
pub proof fn lemma_statistics_count_outcomes(stats: StatsView, outcomes: Seq<ProofOutcome>)
    ensures
        successes(outcomes) <= outcomes.len(),
        stats.recorded_all(outcomes).successful_verifications == stats.successful_verifications + successes(
            outcomes,
        ),
        stats.recorded_all(outcomes).total_proofs_generated == stats.total_proofs_generated + successes(outcomes),
        stats.recorded_all(outcomes).failed_verifications() == stats.failed_verifications() + outcomes.len()
            - successes(outcomes),
        stats.recorded_all(outcomes).recorded_total() == stats.recorded_total() + outcomes.len(),
        stats.recorded_all(outcomes).serialization_failures == stats.serialization_failures + failures_of_kind(
            outcomes,
            FailureKind::SerializationFailure,
        ),
        stats.recorded_all(outcomes).constraint_violations == stats.constraint_violations + failures_of_kind(
            outcomes,
            FailureKind::ConstraintViolation,
        ),
        stats.recorded_all(outcomes).backend_verification_failures == stats.backend_verification_failures
            + failures_of_kind(outcomes, FailureKind::BackendVerificationFailure),
        stats.recorded_all(outcomes).deserialization_failures == stats.deserialization_failures + failures_of_kind(
            outcomes,
            FailureKind::DeserializationFailure,
        ),
        stats.recorded_all(outcomes).total_generation_time_ms == stats.total_generation_time_ms
            + generation_time_sum(outcomes),
        stats.recorded_all(outcomes).total_verification_time_ms == stats.total_verification_time_ms
            + verification_time_sum(outcomes),
    decreases outcomes.len(),
{
    if outcomes.len() > 0 {
        lemma_statistics_count_outcomes(stats, outcomes.drop_last());
        let earlier = stats.recorded_all(outcomes.drop_last());
        assert(stats.recorded_all(outcomes) == earlier.recorded(outcomes.last()));
    }
}

impl View for ProofStats {
    type V = StatsView;

    closed spec fn view(&self) -> StatsView {
        StatsView {
            total_proofs_generated: self.total_proofs_generated as nat,
            total_generation_time_ms: self.total_generation_time_ms as nat,
            total_verification_time_ms: self.total_verification_time_ms as nat,
            successful_verifications: self.successful_verifications as nat,
            serialization_failures: self.serialization_failures as nat,
            constraint_violations: self.constraint_violations as nat,
            backend_verification_failures: self.backend_verification_failures as nat,
            deserialization_failures: self.deserialization_failures as nat,
        }
    }
}

impl ProofStats {
    /// The counters agree with each other and the sums are those of at most
    /// as many times as tasks were recorded.
    pub closed spec fn wf(&self) -> bool {
        &&& self.total_proofs_generated == self.successful_verifications
        &&& self.failed_verifications == self@.failed_verifications()
        &&& self.total_generation_time_ms <= self@.recorded_total() * u64::MAX
        &&& self.total_verification_time_ms <= self@.recorded_total() * u64::MAX
        &&& self@.recorded_total() <= usize::MAX
    }

    /// One more outcome can be counted.
    pub open spec fn has_room(&self) -> bool {
        self@.recorded_total() < usize::MAX
    }

    /// Statistics with nothing recorded.
    pub fn new() -> (stats: Self)
        ensures
            stats.wf(),
            stats@ == StatsView::zero(),
    {
        ProofStats {
            total_proofs_generated: 0,
            total_generation_time_ms: 0,
            total_verification_time_ms: 0,
            successful_verifications: 0,
            failed_verifications: 0,
            serialization_failures: 0,
            constraint_violations: 0,
            backend_verification_failures: 0,
            deserialization_failures: 0,
        }
    }

    /// Counts one outcome: its two times, and the success or the kind of
    /// its failure.
    pub fn record(&mut self, outcome: ProofOutcome)
        requires
            old(self).wf(),
            old(self).has_room(),
        ensures
            final(self).wf(),
            final(self)@ == old(self)@.recorded(outcome),
    {
        proof {
            let n = self@.recorded_total();
            assert((n + 1) * u64::MAX == n * u64::MAX + u64::MAX) by (nonlinear_arith);
            assert((n + 1) * u64::MAX <= u128::MAX) by (nonlinear_arith)
                requires
                    n + 1 <= u64::MAX,
            ;
        }
        self.total_generation_time_ms += outcome.generation_time_ms as u128;
        self.total_verification_time_ms += outcome.verification_time_ms as u128;
        match outcome.failure {
            None => {
                self.total_proofs_generated += 1;
                self.successful_verifications += 1;
            },
            Some(FailureKind::SerializationFailure) => {
                self.failed_verifications += 1;
                self.serialization_failures += 1;
            },
            Some(FailureKind::ConstraintViolation) => {
                self.failed_verifications += 1;
                self.constraint_violations += 1;
            },
            Some(FailureKind::BackendVerificationFailure) => {
                self.failed_verifications += 1;
                self.backend_verification_failures += 1;
            },
            Some(FailureKind::DeserializationFailure) => {
                self.failed_verifications += 1;
                self.deserialization_failures += 1;
            },
        }
    }

    /// Whole milliseconds of generation per task recorded; zero where
    /// there is none.
    pub fn avg_generation_time(&self) -> (avg: u64)
        requires
            self.wf(),
        ensures
            avg == self@.avg_generation_time(),
    {
        let total = self.successful_verifications + self.failed_verifications;
        if total > 0 {
            let n = total as u128;
            assert(self.total_generation_time_ms / n <= u64::MAX) by (nonlinear_arith)
                requires
                    n > 0,
                    self.total_generation_time_ms <= n * u64::MAX,
            ;
            (self.total_generation_time_ms / n) as u64
        } else {
            0
        }
    }

    /// Whole milliseconds of verification per task recorded; zero where
    /// there is none.
    pub fn avg_verification_time(&self) -> (avg: u64)
        requires
            self.wf(),
        ensures
            avg == self@.avg_verification_time(),
    {
        let total = self.successful_verifications + self.failed_verifications;
        if total > 0 {
            let n = total as u128;
            assert(self.total_verification_time_ms / n <= u64::MAX) by (nonlinear_arith)
                requires
                    n > 0,
                    self.total_verification_time_ms <= n * u64::MAX,
            ;
            (self.total_verification_time_ms / n) as u64
        } else {
            0
        }
    }

    /// Proofs generated and verified.
    pub fn total_proofs_generated(&self) -> (n: usize)
        ensures
            n == self@.total_proofs_generated,
    {
        self.total_proofs_generated
    }

    /// Sum of the generation times of all tasks recorded, in milliseconds.
    pub fn total_generation_time_ms(&self) -> (ms: u128)
        ensures
            ms == self@.total_generation_time_ms,
    {
        self.total_generation_time_ms
    }

    /// Sum of the verification times of all tasks recorded, in milliseconds.
    pub fn total_verification_time_ms(&self) -> (ms: u128)
        ensures
            ms == self@.total_verification_time_ms,
    {
        self.total_verification_time_ms
    }

    /// Tasks that ended in success.
    pub fn successful_verifications(&self) -> (n: usize)
        ensures
            n == self@.successful_verifications,
    {
        self.successful_verifications
    }

    /// Tasks that ended in failure, of whatever kind.
    pub fn failed_verifications(&self) -> (n: usize)
        requires
            self.wf(),
        ensures
            n == self@.failed_verifications(),
    {
        self.failed_verifications
    }

    /// Tasks that ended in a failure of the given kind.
    pub fn failures_of(&self, kind: FailureKind) -> (n: usize)
        ensures
            n == match kind {
                FailureKind::SerializationFailure => self@.serialization_failures,
                FailureKind::ConstraintViolation => self@.constraint_violations,
                FailureKind::BackendVerificationFailure => self@.backend_verification_failures,
                FailureKind::DeserializationFailure => self@.deserialization_failures,
            },
    {
        match kind {
            FailureKind::SerializationFailure => self.serialization_failures,
            FailureKind::ConstraintViolation => self.constraint_violations,
            FailureKind::BackendVerificationFailure => self.backend_verification_failures,
            FailureKind::DeserializationFailure => self.deserialization_failures,
        }
    }
}

impl Default for ProofStats {
    fn default() -> (stats: Self)
        ensures
            stats.wf(),
            stats@ == StatsView::zero(),
    {
        ProofStats::new()
    }
}

/// A window on its way to the backend: the number of its task and the
/// matrix to prove.
pub struct ProofJob {
    pub task: u64,
    pub matrix: TraceMatrix,
}

/// A task that has ended, with what it handed back.
#[derive(Debug)]
pub struct FinishedTask {
    pub task: u64,
    pub result: ProofResult,
}

/// The pipeline's own state: the tasks in flight, by number, and the
/// statistics over the tasks that ended.
#[derive(Debug)]
pub struct ProofGenerator {
    active_tasks: Vec<u64>,
    next_task: u64,
    completed_count: usize,
    stats: ProofStats,
}

/// What the pipeline holds.
#[verifier::ext_equal]
pub ghost struct GeneratorView {
    /// The tasks in flight, in the order of their submission.
    pub active_tasks: Seq<u64>,
    /// The number that the next task gets.
    pub next_task: u64,
    /// Tasks that ended in success.
    pub completed_count: nat,
    /// The statistics over the tasks that ended.
    pub stats: StatsView,
}

impl GeneratorView {
    /// Nothing in flight, nothing recorded.
    pub open spec fn idle() -> GeneratorView {
        GeneratorView { active_tasks: Seq::empty(), next_task: 0, completed_count: 0, stats: StatsView::zero() }
    }

    /// A task has been started.
    pub open spec fn submitted(self) -> GeneratorView {
        GeneratorView {
            active_tasks: self.active_tasks.push(self.next_task),
            next_task: (self.next_task + 1) as u64,
            ..self
        }
    }

    /// The task `task` has ended with `outcome`. A task that is not in
    /// flight changes nothing.
    pub open spec fn completed(self, task: u64, outcome: ProofOutcome) -> GeneratorView {
        if self.active_tasks.contains(task) {
            GeneratorView {
                active_tasks: self.active_tasks.remove_value(task),
                completed_count: if outcome.success() {
                    self.completed_count + 1
                } else {
                    self.completed_count
                },
                stats: self.stats.recorded(outcome),
                ..self
            }
        } else {
            self
        }
    }

    /// Every task in flight is forgotten and the statistics start anew.
    /// Task numbers go on, so that a forgotten task is never taken for a
    /// later one.
    pub open spec fn reset(self) -> GeneratorView {
        GeneratorView { next_task: self.next_task, ..GeneratorView::idle() }
    }

    /// The pipeline after the tasks of `finished` have ended, first to last.
    pub open spec fn polled(self, finished: Seq<(u64, ProofOutcome)>) -> GeneratorView
        decreases finished.len(),
    {
        if finished.len() == 0 {
            self
        } else {
            self.polled(finished.drop_last()).completed(finished.last().0, finished.last().1)
        }
    }

    /// The outcomes of those tasks of `finished` that were in flight when
    /// they ended, in their order.
    pub open spec fn accepted(self, finished: Seq<(u64, ProofOutcome)>) -> Seq<ProofOutcome>
        decreases finished.len(),
    {
        if finished.len() == 0 {
            Seq::empty()
        } else if self.polled(finished.drop_last()).active_tasks.contains(finished.last().0) {
            self.accepted(finished.drop_last()).push(finished.last().1)
        } else {
            self.accepted(finished.drop_last())
        }
    }
}

/// The tasks of `finished` by number and outcome.
pub open spec fn finished_view(finished: Seq<FinishedTask>) -> Seq<(u64, ProofOutcome)> {
    finished.map_values(|f: FinishedTask| (f.task, f.result.outcome()))
}

/// After a poll the statistics are the earlier ones with the accepted
/// outcomes recorded, and by [`lemma_statistics_ignore_order`] the order in
/// which the tasks ended does not show in them.
pub proof fn lemma_poll_records_accepted(before: GeneratorView, finished: Seq<(u64, ProofOutcome)>)
    ensures
        before.polled(finished).stats == before.stats.recorded_all(before.accepted(finished)),
        before.polled(finished).stats.recorded_total() == before.stats.recorded_total() + before.accepted(
            finished,
        ).len(),
        before.accepted(finished).len() <= finished.len(),
    decreases finished.len(),
{
    if finished.len() > 0 {
        lemma_poll_records_accepted(before, finished.drop_last());
        let earlier = before.accepted(finished.drop_last());
        if before.polled(finished.drop_last()).active_tasks.contains(finished.last().0) {
            assert(earlier.push(finished.last().1).drop_last() =~= earlier);
        }
    }
}

/// Every task of `finished` is in flight in `before`, and none ends twice.
pub open spec fn ends_each_once(before: GeneratorView, finished: Seq<(u64, ProofOutcome)>) -> bool {
    &&& forall|i: int| 0 <= i < finished.len() ==> before.active_tasks.contains((#[trigger] finished[i]).0)
    &&& forall|i: int, j: int|
        0 <= i < j < finished.len() ==> (#[trigger] finished[i]).0 != (#[trigger] finished[j]).0
}

/// No entry of `finished` ends the task `task`.
pub open spec fn never_ends(finished: Seq<(u64, ProofOutcome)>, task: u64) -> bool {
    forall|i: int| 0 <= i < finished.len() ==> (#[trigger] finished[i]).0 != task
}

/// Among distinct tasks, the one that ends leaves the flight list and the
/// others stay.
pub proof fn lemma_task_leaves_flight(tasks: Seq<u64>, task: u64)
    requires
        tasks.no_duplicates(),
        tasks.contains(task),
    ensures
        tasks.remove_value(task).no_duplicates(),
        !tasks.remove_value(task).contains(task),
        forall|other: u64| other != task ==> (tasks.remove_value(task).contains(other) <==> tasks.contains(other)),
{
    lemma_remove_value_of_distinct(tasks, task);
}

proof fn lemma_remove_value_of_distinct(s: Seq<u64>, x: u64)
    requires
        s.no_duplicates(),
        s.contains(x),
    ensures
        s.remove_value(x).no_duplicates(),
        forall|y: u64| s.remove_value(x).contains(y) <==> s.contains(y) && y != x,
{
    s.index_of_first_ensures(x);
    let at = s.index_of_first(x).unwrap();
    let rest = s.remove(at);
    assert forall|a: int, b: int| 0 <= a < rest.len() && 0 <= b < rest.len() && a != b implies rest[a] != rest[b] by {
        let a0 = if a < at { a } else { a + 1 };
        let b0 = if b < at { b } else { b + 1 };
        assert(rest[a] == s[a0] && rest[b] == s[b0]);
    }
    assert forall|y: u64| rest.contains(y) <==> s.contains(y) && y != x by {
        if rest.contains(y) {
            let a = choose|a: int| 0 <= a < rest.len() && rest[a] == y;
            let a0 = if a < at { a } else { a + 1 };
            assert(rest[a] == s[a0]);
        }
        if s.contains(y) && y != x {
            let a0 = choose|a0: int| 0 <= a0 < s.len() && s[a0] == y;
            let a = if a0 < at { a0 } else { a0 - 1 };
            assert(rest[a] == s[a0]);
        }
    }
}

proof fn lemma_polled_when_each_ends_once(before: GeneratorView, finished: Seq<(u64, ProofOutcome)>)
    requires
        before.active_tasks.no_duplicates(),
        ends_each_once(before, finished),
    ensures
        before.polled(finished).stats == finished.fold_left(
            before.stats,
            |stats: StatsView, entry: (u64, ProofOutcome)| stats.recorded(entry.1),
        ),
        before.polled(finished).completed_count - before.completed_count == before.polled(
            finished,
        ).stats.successful_verifications - before.stats.successful_verifications,
        before.polled(finished).next_task == before.next_task,
        before.polled(finished).active_tasks.no_duplicates(),
        forall|t: u64| #[trigger]
            before.polled(finished).active_tasks.contains(t) <==> before.active_tasks.contains(t) && never_ends(
                finished,
                t,
            ),
    decreases finished.len(),
{
    if finished.len() > 0 {
        let earlier = finished.drop_last();
        let entry = finished.last();
        assert forall|i: int| 0 <= i < earlier.len() implies before.active_tasks.contains((#[trigger] earlier[i]).0) by {
            assert(earlier[i] == finished[i]);
        }
        assert forall|i: int, j: int| 0 <= i < j < earlier.len() implies (#[trigger] earlier[i]).0 != (
        #[trigger] earlier[j]).0 by {
            assert(earlier[i] == finished[i] && earlier[j] == finished[j]);
        }
        lemma_polled_when_each_ends_once(before, earlier);
        let middle = before.polled(earlier);
        assert(middle.active_tasks.contains(entry.0)) by {
            assert(before.active_tasks.contains(finished[finished.len() - 1].0));
            assert forall|i: int| 0 <= i < earlier.len() implies (#[trigger] earlier[i]).0 != entry.0 by {
                assert(finished[i].0 != finished[finished.len() - 1].0);
            }
        }
        lemma_remove_value_of_distinct(middle.active_tasks, entry.0);
        let after = before.polled(finished);
        assert(after.active_tasks == middle.active_tasks.remove_value(entry.0));
        assert forall|t: u64| #[trigger]
            after.active_tasks.contains(t) <==> before.active_tasks.contains(t) && never_ends(finished, t) by {
            assert(middle.active_tasks.contains(t) <==> before.active_tasks.contains(t) && never_ends(earlier, t));
            assert(after.active_tasks.contains(t) <==> middle.active_tasks.contains(t) && t != entry.0);
            if never_ends(finished, t) {
                assert forall|i: int| 0 <= i < earlier.len() implies (#[trigger] earlier[i]).0 != t by {
                    assert(earlier[i] == finished[i]);
                }
                assert(finished[finished.len() - 1].0 != t);
            }
            if never_ends(earlier, t) && t != entry.0 {
                assert forall|i: int| 0 <= i < finished.len() implies (#[trigger] finished[i]).0 != t by {
                    if i < earlier.len() {
                        assert(earlier[i] == finished[i]);
                    }
                }
            }
        }
    }
}

/// Tasks that are in flight together may end in any order: where two
/// sequences hold the same endings, each task ending once, the pipeline is
/// left with the same statistics, the same count of completed tasks and
/// the same tasks in flight.
pub proof fn lemma_completion_order_is_irrelevant(
    before: GeneratorView,
    first: Seq<(u64, ProofOutcome)>,
    second: Seq<(u64, ProofOutcome)>,
)
    requires
        before.active_tasks.no_duplicates(),
        first.to_multiset() == second.to_multiset(),
        ends_each_once(before, first),
        ends_each_once(before, second),
    ensures
        before.polled(first).stats == before.polled(second).stats,
        before.polled(first).completed_count == before.polled(second).completed_count,
        before.polled(first).next_task == before.polled(second).next_task,
        before.polled(first).active_tasks.to_set() == before.polled(second).active_tasks.to_set(),
{
    let f = |stats: StatsView, entry: (u64, ProofOutcome)| stats.recorded(entry.1);
    assert(commutative_foldl(f)) by {
        assert forall|x: (u64, ProofOutcome), y: (u64, ProofOutcome), v: StatsView| #[trigger]
            f(f(v, x), y) == f(f(v, y), x) by {}
    }
    lemma_fold_left_permutation(first, second, f, before.stats);
    lemma_polled_when_each_ends_once(before, first);
    lemma_polled_when_each_ends_once(before, second);
    let a = before.polled(first).active_tasks;
    let b = before.polled(second).active_tasks;
    assert forall|t: u64| a.contains(t) <==> b.contains(t) by {
        if never_ends(first, t) {
            assert forall|j: int| 0 <= j < second.len() implies (#[trigger] second[j]).0 != t by {
                lemma_shared_entry(second, first, j);
                let i = choose|i: int| 0 <= i < first.len() && first[i] == second[j];
                assert(first[i].0 != t);
            }
        }
        if never_ends(second, t) {
            assert forall|i: int| 0 <= i < first.len() implies (#[trigger] first[i]).0 != t by {
                lemma_shared_entry(first, second, i);
                let j = choose|j: int| 0 <= j < second.len() && second[j] == first[i];
                assert(second[j].0 != t);
            }
        }
    }
    assert(a.to_set() =~= b.to_set());
}

proof fn lemma_shared_entry(one: Seq<(u64, ProofOutcome)>, other: Seq<(u64, ProofOutcome)>, i: int)
    requires
        one.to_multiset() == other.to_multiset(),
        0 <= i < one.len(),
    ensures
        exists|j: int| 0 <= j < other.len() && other[j] == one[i],
{
    broadcast use vstd::seq_lib::group_to_multiset_ensures;

    assert(one.contains(one[i]));
    assert(one.to_multiset().count(one[i]) > 0);
    assert(other.contains(one[i]));
}

/// The outcomes of `finished`, in their order.
pub open spec fn outcomes_of(finished: Seq<(u64, ProofOutcome)>) -> Seq<ProofOutcome> {
    finished.map_values(|entry: (u64, ProofOutcome)| entry.1)
}

/// Polling in two calls is polling once with what the two calls drained,
/// one after the other: how the endings are split over calls does not
/// matter.
pub proof fn lemma_polls_compose(
    before: GeneratorView,
    first: Seq<(u64, ProofOutcome)>,
    second: Seq<(u64, ProofOutcome)>,
)
    ensures
        before.polled(first + second) == before.polled(first).polled(second),
        before.accepted(first + second) == before.accepted(first) + before.polled(first).accepted(second),
    decreases second.len(),
{
    if second.len() == 0 {
        assert(first + second =~= first);
        assert(before.accepted(first) + before.polled(first).accepted(second) =~= before.accepted(first));
    } else {
        let all = first + second;
        assert(all.drop_last() =~= first + second.drop_last());
        assert(all.last() == second.last());
        lemma_polls_compose(before, first, second.drop_last());
        let earlier = before.accepted(first) + before.polled(first).accepted(second.drop_last());
        if before.polled(all.drop_last()).active_tasks.contains(all.last().0) {
            assert(earlier.push(second.last().1) =~= before.accepted(first) + before.polled(first).accepted(
                second.drop_last(),
            ).push(second.last().1));
        }
    }
}

/// Tasks in flight that end, each once, are each counted once: every
/// outcome is accepted, the statistics grow by the counts and time sums
/// over all of them (see [`lemma_statistics_count_outcomes`]), the count of
/// completed tasks grows by the successes, and none of the tasks is left
/// in flight.
pub proof fn lemma_drained_tasks_are_counted_once(before: GeneratorView, finished: Seq<(u64, ProofOutcome)>)
    requires
        before.active_tasks.no_duplicates(),
        ends_each_once(before, finished),
    ensures
        before.accepted(finished) == outcomes_of(finished),
        before.polled(finished).stats == before.stats.recorded_all(outcomes_of(finished)),
        before.polled(finished).completed_count == before.completed_count + successes(outcomes_of(finished)),
        before.polled(finished).next_task == before.next_task,
        forall|i: int|
            0 <= i < finished.len() ==> !before.polled(finished).active_tasks.contains((#[trigger] finished[i]).0),
        forall|t: u64|
            before.active_tasks.contains(t) && never_ends(finished, t) ==> #[trigger] before.polled(
                finished,
            ).active_tasks.contains(t),
    decreases finished.len(),
{
    lemma_polled_when_each_ends_once(before, finished);
    lemma_poll_records_accepted(before, finished);
    if finished.len() == 0 {
        assert(before.accepted(finished) =~= outcomes_of(finished));
    } else {
        let earlier = finished.drop_last();
        let entry = finished.last();
        assert forall|i: int| 0 <= i < earlier.len() implies before.active_tasks.contains((#[trigger] earlier[i]).0) by {
            assert(earlier[i] == finished[i]);
        }
        assert forall|i: int, j: int| 0 <= i < j < earlier.len() implies (#[trigger] earlier[i]).0 != (
        #[trigger] earlier[j]).0 by {
            assert(earlier[i] == finished[i] && earlier[j] == finished[j]);
        }
        lemma_drained_tasks_are_counted_once(before, earlier);
        lemma_polled_when_each_ends_once(before, earlier);
        assert(before.polled(earlier).active_tasks.contains(entry.0)) by {
            assert(before.active_tasks.contains(finished[finished.len() - 1].0));
            assert forall|i: int| 0 <= i < earlier.len() implies (#[trigger] earlier[i]).0 != entry.0 by {
                assert(finished[i].0 != finished[finished.len() - 1].0);
            }
        }
        assert(outcomes_of(finished) =~= outcomes_of(earlier).push(entry.1));
        assert(outcomes_of(finished).drop_last() =~= outcomes_of(earlier));
    }
    lemma_statistics_count_outcomes(before.stats, outcomes_of(finished));
    lemma_statistics_count_outcomes(before.stats, before.accepted(finished));
    assert forall|i: int| 0 <= i < finished.len() implies !before.polled(finished).active_tasks.contains(
        (#[trigger] finished[i]).0,
    ) by {
        if never_ends(finished, finished[i].0) {
            assert(finished[i].0 != finished[i].0);
        }
    }
}

/// Two runs that drain the same endings leave the same pipeline, in
/// whatever order the tasks ended and however each run split them over
/// its calls.
pub proof fn lemma_split_runs_agree(
    before: GeneratorView,
    first_a: Seq<(u64, ProofOutcome)>,
    first_b: Seq<(u64, ProofOutcome)>,
    second_a: Seq<(u64, ProofOutcome)>,
    second_b: Seq<(u64, ProofOutcome)>,
)
    requires
        before.active_tasks.no_duplicates(),
        (first_a + first_b).to_multiset() == (second_a + second_b).to_multiset(),
        ends_each_once(before, first_a + first_b),
        ends_each_once(before, second_a + second_b),
    ensures
        before.polled(first_a).polled(first_b).stats == before.polled(second_a).polled(second_b).stats,
        before.polled(first_a).polled(first_b).completed_count == before.polled(second_a).polled(
            second_b,
        ).completed_count,
        before.polled(first_a).polled(first_b).active_tasks.to_set() == before.polled(second_a).polled(
            second_b,
        ).active_tasks.to_set(),
{
    lemma_polls_compose(before, first_a, first_b);
    lemma_polls_compose(before, second_a, second_b);
    lemma_completion_order_is_irrelevant(before, first_a + first_b, second_a + second_b);
}

impl View for ProofGenerator {
    type V = GeneratorView;

    closed spec fn view(&self) -> GeneratorView {
        GeneratorView {
            active_tasks: self.active_tasks@,
            next_task: self.next_task,
            completed_count: self.completed_count as nat,
            stats: self.stats@,
        }
    }
}

impl Default for ProofGenerator {
    fn default() -> (generator: Self)
        ensures
            generator.wf(),
            generator@ == GeneratorView::idle(),
    {
        ProofGenerator { active_tasks: Vec::new(), next_task: 0, completed_count: 0, stats: ProofStats::new() }
    }
}

impl ProofGenerator {
    /// The tasks in flight have distinct numbers, all given out already, and
    /// the statistics are consistent.
    pub closed spec fn wf(&self) -> bool {
        &&& self.stats.wf()
        &&& self.completed_count == self.stats@.successful_verifications
        &&& self.active_tasks@.no_duplicates()
        &&& forall|i: int| 0 <= i < self.active_tasks@.len() ==> self.active_tasks@[i] < self.next_task
    }

    /// What a well-formed pipeline is known to hold: distinct tasks in
    /// flight, numbered below the next number, and a count of completed tasks
    /// that agrees with the statistics.
    pub proof fn lemma_wf_view(&self)
        requires
            self.wf(),
        ensures
            self@.active_tasks.no_duplicates(),
            forall|i: int| 0 <= i < self@.active_tasks.len() ==> self@.active_tasks[i] < self@.next_task,
            self@.completed_count == self@.stats.successful_verifications,
            self@.stats.recorded_total() <= usize::MAX,
    {
    }

    /// One more task can be numbered.
    pub open spec fn can_submit_spec(&self) -> bool {
        self@.next_task < u64::MAX
    }

    /// One more outcome can be counted.
    pub open spec fn can_complete_spec(&self) -> bool {
        self@.stats.recorded_total() < usize::MAX
    }

    /// Whether one more task can be numbered.
    #[verifier::when_used_as_spec(can_submit_spec)]
    pub fn can_submit(&self) -> (room: bool)
        ensures
            room == self.can_submit_spec(),
    {
        self.next_task < u64::MAX
    }

    /// Whether one more outcome can be counted.
    #[verifier::when_used_as_spec(can_complete_spec)]
    pub fn can_complete(&self) -> (room: bool)
        requires
            self.wf(),
        ensures
            room == self.can_complete_spec(),
    {
        let failed = self.stats.failed_verifications();
        let successful = self.stats.successful_verifications();
        failed < usize::MAX && successful < usize::MAX - failed
    }

    /// Arithmetizes a window and, where it has a trace, starts a task for
    /// it. The caller hands the job to a worker. A window without a trace
    /// starts nothing.
    pub fn submit(&mut self, trace: &MovementTrace) -> (result: Result<ProofJob, ArithmetizeError>)
        requires
            old(self).wf(),
            old(self).can_submit(),
        ensures
            final(self).wf(),
            match result {
                Ok(job) => {
                    &&& arithmetized(trace@, Ok(job.matrix))
                    &&& job.task == old(self)@.next_task
                    &&& final(self)@ == old(self)@.submitted()
                },
                Err(e) => {
                    &&& arithmetized(trace@, Err(e))
                    &&& final(self)@ == old(self)@
                },
            },
    {
        match arithmetize(trace) {
            Ok(matrix) => {
                let task = self.next_task;
                self.active_tasks.push(task);
                self.next_task = task + 1;
                proof {
                    let before = old(self).active_tasks@;
                    let after = self.active_tasks@;
                    assert forall|i: int, j: int| 0 <= i < after.len() && 0 <= j < after.len() && i != j implies after[i]
                        != after[j] by {
                        if i < before.len() {
                            assert(before[i] < task);
                        }
                        if j < before.len() {
                            assert(before[j] < task);
                        }
                    }
                }
                Ok(ProofJob { task, matrix })
            },
            Err(e) => Err(e),
        }
    }

    /// Takes sealed windows from the collector, oldest first, until one has
    /// more than one sample, and submits that one. Windows of a single
    /// sample hold no transition and are dropped. `None` where the queue
    /// holds no window to submit.
    pub fn submit_next(&mut self, collector: &mut MovementTraceCollector) -> (result: Option<
        Result<ProofJob, ArithmetizeError>,
    >)
        requires
            old(self).wf(),
            old(self).can_submit(),
        ensures
            final(self).wf(),
            final(collector)@.current == old(collector)@.current,
            final(collector)@.trace_duration == old(collector)@.trace_duration,
            final(collector)@.max_completed_traces == old(collector)@.max_completed_traces,
            final(collector)@.reset_marked == old(collector)@.reset_marked,
            match result {
                None => {
                    &&& forall|j: int|
                        0 <= j < old(collector)@.completed.len() ==> (#[trigger] old(collector)@.completed[j]).steps.len()
                            <= 1
                    &&& final(collector)@.completed.len() == 0
                    &&& final(self)@ == old(self)@
                },
                Some(submitted) => exists|k: int|
                    {
                        &&& 0 <= k < old(collector)@.completed.len()
                        &&& forall|j: int| 0 <= j < k ==> (#[trigger] old(collector)@.completed[j]).steps.len() <= 1
                        &&& (#[trigger] old(collector)@.completed[k]).steps.len() > 1
                        &&& final(collector)@.completed == old(collector)@.completed.skip(k + 1)
                        &&& match submitted {
                            Ok(job) => {
                                &&& arithmetized(old(collector)@.completed[k], Ok(job.matrix))
                                &&& job.task == old(self)@.next_task
                                &&& final(self)@ == old(self)@.submitted()
                            },
                            Err(e) => {
                                &&& arithmetized(old(collector)@.completed[k], Err(e))
                                &&& final(self)@ == old(self)@
                            },
                        }
                    },
            },
    {
        let ghost queue = collector@.completed;
        let ghost mut taken: int = 0;
        loop
            invariant
                self.wf(),
                self.can_submit(),
                self@ == old(self)@,
                queue == old(collector)@.completed,
                0 <= taken <= queue.len(),
                collector@.completed == queue.skip(taken),
                collector@.current == old(collector)@.current,
                collector@.trace_duration == old(collector)@.trace_duration,
                collector@.max_completed_traces == old(collector)@.max_completed_traces,
                collector@.reset_marked == old(collector)@.reset_marked,
                forall|j: int| 0 <= j < taken ==> (#[trigger] queue[j]).steps.len() <= 1,
            decreases queue.len() - taken,
        {
            match collector.get_next_trace_for_proving() {
                None => {
                    return None;
                },
                Some(trace) => {
                    proof {
                        assert(queue.skip(taken)[0] == queue[taken]);
                        assert(queue.skip(taken).drop_first() =~= queue.skip(taken + 1));
                    }
                    if trace.steps.len() > 1 {
                        let submitted = self.submit(&trace);
                        return Some(submitted);
                    }
                    proof {
                        taken = taken + 1;
                    }
                },
            }
        }
    }

    /// Takes note that the task `task` has ended. The result of a task
    /// that is not in flight, because it was never started or was forgotten
    /// in a reset, is refused and changes nothing.
    pub fn complete(&mut self, task: u64, result: &ProofResult) -> (accepted: bool)
        requires
            old(self).wf(),
            old(self).can_complete(),
        ensures
            final(self).wf(),
            accepted == old(self)@.active_tasks.contains(task),
            final(self)@ == old(self)@.completed(task, result.outcome()),
    {
        let mut i: usize = 0;
        while i < self.active_tasks.len() && self.active_tasks[i] != task
            invariant
                i <= self.active_tasks@.len(),
                self.active_tasks@ == old(self).active_tasks@,
                forall|j: int| 0 <= j < i ==> self.active_tasks@[j] != task,
            decreases self.active_tasks@.len() - i,
        {
            i += 1;
        }
        if i == self.active_tasks.len() {
            assert(!self.active_tasks@.contains(task));
            return false;
        }
        proof {
            let tasks = self.active_tasks@;
            assert(tasks[i as int] == task);
            tasks.index_of_first_ensures(task);
            assert(tasks.remove_value(task) == tasks.remove(i as int));
            lemma_remove_value_of_distinct(tasks, task);
            assert forall|a: int| 0 <= a < tasks.remove_value(task).len() implies tasks.remove_value(task)[a]
                < self.next_task by {
                assert(tasks.remove_value(task).contains(tasks.remove_value(task)[a]));
            }
        }
        self.active_tasks.remove(i);
        let outcome = result.outcome();
        self.stats.record(outcome);
        if outcome.failure.is_none() {
            self.completed_count += 1;
        }
        true
    }

    /// Takes note of every task of `finished`, first to last, and returns
    /// the outcomes of those that were in flight. It waits for nothing.
    pub fn poll(&mut self, finished: &Vec<FinishedTask>) -> (outcomes: Vec<ProofOutcome>)
        requires
            old(self).wf(),
            old(self)@.stats.recorded_total() + finished@.len() <= usize::MAX,
        ensures
            final(self).wf(),
            final(self)@ == old(self)@.polled(finished_view(finished@)),
            outcomes@ == old(self)@.accepted(finished_view(finished@)),
    {
        let ghost all = finished_view(finished@);
        let mut outcomes: Vec<ProofOutcome> = Vec::new();
        let mut i: usize = 0;
        while i < finished.len()
            invariant
                i <= finished@.len(),
                all == finished_view(finished@),
                self.wf(),
                old(self)@.stats.recorded_total() + finished@.len() <= usize::MAX,
                self@ == old(self)@.polled(all.take(i as int)),
                outcomes@ == old(self)@.accepted(all.take(i as int)),
            decreases finished@.len() - i,
        {
            proof {
                lemma_poll_records_accepted(old(self)@, all.take(i as int));
                assert(all.take(i + 1).drop_last() =~= all.take(i as int));
                assert(all.take(i + 1).last() == (finished@[i as int].task, finished@[i as int].result.outcome()));
            }
            let entry = &finished[i];
            if self.complete(entry.task, &entry.result) {
                outcomes.push(entry.result.outcome());
            }
            i += 1;
        }
        proof {
            assert(all.take(finished@.len() as int) =~= all);
        }
        outcomes
    }

    /// Forgets every task in flight and starts the statistics anew.
    pub fn reset(&mut self)
        requires
            old(self).wf(),
        ensures
            final(self).wf(),
            final(self)@ == old(self)@.reset(),
    {
        self.active_tasks.clear();
        self.completed_count = 0;
        self.stats = ProofStats::new();
    }

    /// Number of tasks in flight.
    pub fn active_count(&self) -> (count: usize)
        ensures
            count == self@.active_tasks.len(),
    {
        self.active_tasks.len()
    }

    /// Tasks that ended in success.
    pub fn completed_count(&self) -> (count: usize)
        ensures
            count == self@.completed_count,
    {
        self.completed_count
    }

    /// The statistics over the tasks that ended.
    pub fn stats(&self) -> (stats: &ProofStats)
        requires
            self.wf(),
        ensures
            stats.wf(),
            stats@ == self@.stats,
    {
        &self.stats
    }

    /// Whether some task has ended in failure: the sign of cheating.
    pub fn cheat_suspected(&self) -> (suspected: bool)
        requires
            self.wf(),
        ensures
            suspected == (self@.stats.failed_verifications() > 0),
    {
        self.stats.failed_verifications() > 0
    }
}

} // verus!
