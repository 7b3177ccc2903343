use movement_integrity::integrity::{CheatDetected, GameState, IntegrityState, CHEAT_MESSAGE};
use movement_integrity::movement_air::ArithmetizeError;
use movement_integrity::movement_trace::{InputFlags, MovementStep, MovementTrace, MovementTraceCollector};
use movement_integrity::proof_system::{
    FailureKind, FinishedTask, ProofGenerator, ProofOutcome, ProofResult, ProofStats,
};
use movement_integrity::proof_task::{conclude, BackendEvent, ProofStage, ProofTask, TaskStep};
use movement_integrity::simulation::{Position, Velocity};

const STILL: InputFlags = InputFlags { left: false, right: false, up: false, down: false };

fn resting(n: u64) -> MovementTrace {
    let mut trace = MovementTrace::new(0);
    for i in 0..n {
        trace.add_step(MovementStep {
            position: Position { x: 0, y: 0 },
            velocity: Velocity { x: 0, y: 0 },
            inputs: STILL,
            timestamp: i * 16_000,
        });
    }
    trace
}

fn success(generation: u64, verification: u64) -> ProofResult {
    ProofResult { result: Ok((vec![1, 2, 3], 3)), generation_time_ms: generation, verification_time_ms: verification }
}

fn failure(kind: FailureKind) -> ProofResult {
    ProofResult { result: Err(kind), generation_time_ms: 9, verification_time_ms: 4 }
}

fn snapshot(stats: &ProofStats) -> (usize, u128, u128, usize, usize, [usize; 4]) {
    (
        stats.total_proofs_generated(),
        stats.total_generation_time_ms(),
        stats.total_verification_time_ms(),
        stats.successful_verifications(),
        stats.failed_verifications(),
        [
            stats.failures_of(FailureKind::SerializationFailure),
            stats.failures_of(FailureKind::ConstraintViolation),
            stats.failures_of(FailureKind::BackendVerificationFailure),
            stats.failures_of(FailureKind::DeserializationFailure),
        ],
    )
}

#[test]
fn outcome_of_a_result() {
    let ok = success(12, 5).outcome();
    assert_eq!(ok.failure, None);
    assert_eq!(ok.generation_time_ms, 12);
    assert_eq!(ok.verification_time_ms, 5);
    assert!(!ok.cheat_suspected());
    for kind in [
        FailureKind::SerializationFailure,
        FailureKind::ConstraintViolation,
        FailureKind::BackendVerificationFailure,
        FailureKind::DeserializationFailure,
    ] {
        let failed = failure(kind).outcome();
        assert_eq!(failed.failure, Some(kind));
        assert!(failed.cheat_suspected());
    }
}

#[test]
fn stats_start_at_zero() {
    let stats = ProofStats::new();
    assert_eq!(snapshot(&stats), (0, 0, 0, 0, 0, [0, 0, 0, 0]));
    assert_eq!(stats.avg_generation_time(), 0);
    assert_eq!(stats.avg_verification_time(), 0);
    assert_eq!(snapshot(&ProofStats::default()), (0, 0, 0, 0, 0, [0, 0, 0, 0]));
}

#[test]
fn stats_count_successes_and_failures_by_kind() {
    let mut stats = ProofStats::new();
    stats.record(success(10, 4).outcome());
    stats.record(success(21, 6).outcome());
    stats.record(failure(FailureKind::ConstraintViolation).outcome());
    stats.record(failure(FailureKind::ConstraintViolation).outcome());
    stats.record(failure(FailureKind::DeserializationFailure).outcome());
    stats.record(failure(FailureKind::SerializationFailure).outcome());
    stats.record(failure(FailureKind::BackendVerificationFailure).outcome());
    assert_eq!(snapshot(&stats), (2, 76, 30, 2, 5, [1, 2, 1, 1]));
    assert_eq!(stats.avg_generation_time(), 10);
    assert_eq!(stats.avg_verification_time(), 4);
}

#[test]
fn stats_add_the_times_of_failures_too() {
    let mut stats = ProofStats::new();
    stats.record(failure(FailureKind::ConstraintViolation).outcome());
    assert_eq!(snapshot(&stats), (0, 9, 4, 0, 1, [0, 1, 0, 0]));
    assert_eq!(stats.avg_generation_time(), 9);
    assert_eq!(stats.avg_verification_time(), 4);
    let slow = ProofResult {
        result: Err(FailureKind::BackendVerificationFailure),
        generation_time_ms: u64::MAX,
        verification_time_ms: u64::MAX,
    };
    stats.record(slow.outcome());
    stats.record(success(1, 2).outcome());
    assert_eq!(stats.total_generation_time_ms(), u64::MAX as u128 + 10);
    assert_eq!(stats.total_verification_time_ms(), u64::MAX as u128 + 6);
    assert_eq!(stats.avg_generation_time(), 6_148_914_691_236_517_208);
    assert_eq!(stats.avg_verification_time(), 6_148_914_691_236_517_207);
    assert_eq!(snapshot(&stats).0, 1);
    assert_eq!(snapshot(&stats).4, 2);
}

#[test]
fn stats_hold_the_largest_times() {
    let mut stats = ProofStats::new();
    stats.record(success(u64::MAX, u64::MAX).outcome());
    stats.record(success(u64::MAX, u64::MAX).outcome());
    assert_eq!(stats.total_generation_time_ms(), 2 * (u64::MAX as u128));
    assert_eq!(stats.avg_generation_time(), u64::MAX);
    assert_eq!(stats.avg_verification_time(), u64::MAX);
}

#[test]
fn stats_do_not_depend_on_the_order() {
    let outcomes: Vec<ProofOutcome> = vec![
        success(10, 4).outcome(),
        failure(FailureKind::ConstraintViolation).outcome(),
        success(7, 1).outcome(),
        failure(FailureKind::BackendVerificationFailure).outcome(),
        success(100, 50).outcome(),
    ];
    let orders: [[usize; 5]; 4] = [[0, 1, 2, 3, 4], [4, 3, 2, 1, 0], [2, 0, 4, 1, 3], [1, 3, 0, 2, 4]];
    let mut seen = Vec::new();
    for order in orders {
        let mut stats = ProofStats::new();
        for i in order {
            stats.record(outcomes[i]);
        }
        seen.push(snapshot(&stats));
    }
    assert_eq!(seen[0], (3, 135, 63, 3, 2, [0, 1, 1, 0]));
    assert!(seen.iter().all(|s| *s == seen[0]));
}

#[test]
fn generator_numbers_its_tasks() {
    let mut generator = ProofGenerator::default();
    assert_eq!(generator.active_count(), 0);
    assert_eq!(generator.completed_count(), 0);
    assert!(generator.can_submit());
    assert!(generator.can_complete());
    let first = generator.submit(&resting(3)).unwrap();
    let second = generator.submit(&resting(9)).unwrap();
    assert_eq!(first.task, 0);
    assert_eq!(second.task, 1);
    assert_eq!(first.matrix.height(), 8);
    assert_eq!(second.matrix.height(), 16);
    assert_eq!(first.matrix.row(0).unwrap(), vec![50_000_000, 50_000_000, 1000, 1000, 0, 0, 0, 0]);
    assert_eq!(generator.active_count(), 2);
}

#[test]
fn generator_starts_nothing_for_a_window_without_trace() {
    let mut generator = ProofGenerator::default();
    let mut trace = resting(2);
    trace.steps[0].position.x = 4;
    trace.is_first_trace_after_reset = true;
    assert_eq!(generator.submit(&trace).err(), Some(ArithmetizeError::StructuralViolation));
    assert_eq!(generator.active_count(), 0);
    assert_eq!(generator.submit(&resting(2)).unwrap().task, 0);
}

#[test]
fn generator_records_results_in_any_order() {
    let mut sums = Vec::new();
    for order in [[0u64, 1, 2], [2, 1, 0], [1, 2, 0]] {
        let mut generator = ProofGenerator::default();
        for _ in 0..3 {
            generator.submit(&resting(2)).unwrap();
        }
        for task in order {
            let result = match task {
                0 => success(10, 2),
                1 => failure(FailureKind::ConstraintViolation),
                _ => success(30, 8),
            };
            assert!(generator.complete(task, &result));
        }
        assert_eq!(generator.active_count(), 0);
        assert_eq!(generator.completed_count(), 2);
        assert!(generator.cheat_suspected());
        sums.push(snapshot(generator.stats()));
    }
    assert_eq!(sums[0], (2, 49, 14, 2, 1, [0, 1, 0, 0]));
    assert!(sums.iter().all(|s| *s == sums[0]));
}

#[test]
fn generator_refuses_a_task_that_is_not_in_flight() {
    let mut generator = ProofGenerator::default();
    let job = generator.submit(&resting(2)).unwrap();
    assert!(!generator.complete(job.task + 1, &failure(FailureKind::ConstraintViolation)));
    assert!(generator.complete(job.task, &success(1, 1)));
    assert!(!generator.complete(job.task, &failure(FailureKind::ConstraintViolation)));
    assert!(!generator.cheat_suspected());
    assert_eq!(snapshot(generator.stats()), (1, 1, 1, 1, 0, [0, 0, 0, 0]));
}

#[test]
fn poll_returns_the_accepted_outcomes() {
    let mut generator = ProofGenerator::default();
    for _ in 0..3 {
        generator.submit(&resting(2)).unwrap();
    }
    assert!(generator.poll(&Vec::new()).is_empty());
    let finished = vec![
        FinishedTask { task: 2, result: success(5, 1) },
        FinishedTask { task: 7, result: failure(FailureKind::ConstraintViolation) },
        FinishedTask { task: 0, result: failure(FailureKind::DeserializationFailure) },
        FinishedTask { task: 2, result: success(50, 10) },
    ];
    let outcomes = generator.poll(&finished);
    assert_eq!(outcomes.len(), 2);
    assert_eq!(outcomes[0].failure, None);
    assert_eq!(outcomes[0].generation_time_ms, 5);
    assert_eq!(outcomes[1].failure, Some(FailureKind::DeserializationFailure));
    assert_eq!(generator.active_count(), 1);
    assert_eq!(snapshot(generator.stats()), (1, 14, 5, 1, 1, [0, 0, 0, 1]));
}

#[test]
fn reset_forgets_tasks_and_failures_but_not_numbers() {
    let mut generator = ProofGenerator::default();
    let old = generator.submit(&resting(2)).unwrap();
    generator.submit(&resting(2)).unwrap();
    assert!(generator.complete(old.task, &failure(FailureKind::ConstraintViolation)));
    generator.reset();
    assert_eq!(generator.active_count(), 0);
    assert_eq!(generator.completed_count(), 0);
    assert!(!generator.cheat_suspected());
    assert!(!generator.complete(1, &failure(FailureKind::ConstraintViolation)));
    assert_eq!(generator.submit(&resting(2)).unwrap().task, 2);
}

#[test]
fn submit_next_skips_windows_of_one_sample() {
    let mut collector = MovementTraceCollector::new(0, 5);
    let mut generator = ProofGenerator::default();
    collector.add_movement(Position { x: 0, y: 0 }, Velocity { x: 0, y: 0 }, STILL, 0);
    assert_eq!(collector.completed_len(), 1);
    assert!(generator.submit_next(&mut collector).is_none());
    assert_eq!(collector.completed_len(), 0);
    assert_eq!(generator.active_count(), 0);
    collector.add_movement(Position { x: 0, y: 0 }, Velocity { x: 0, y: 0 }, STILL, 1);
    collector.clear();
    collector.add_movement(Position { x: 0, y: 0 }, Velocity { x: 0, y: 0 }, STILL, 2);
    collector.add_movement(Position { x: 0, y: 0 }, Velocity { x: 0, y: 0 }, STILL, 3);
    assert_eq!(collector.completed_len(), 2);
    let job = generator.submit_next(&mut collector).unwrap().unwrap();
    assert_eq!(job.task, 0);
    assert_eq!(collector.completed_len(), 0);
    generator.reset();

    let mut collector = MovementTraceCollector::new(20_000, 5);
    for i in 0..7 {
        collector.add_movement(Position { x: 0, y: 0 }, Velocity { x: 0, y: 0 }, STILL, i * 10_000);
    }
    assert_eq!(collector.completed_len(), 3);
    let job = generator.submit_next(&mut collector).unwrap().unwrap();
    assert_eq!(job.task, 1);
    assert_eq!(collector.completed_len(), 2);
    assert!(generator.submit_next(&mut collector).unwrap().is_ok());
    assert!(generator.submit_next(&mut collector).unwrap().is_ok());
    assert!(generator.submit_next(&mut collector).is_none());
    assert_eq!(generator.active_count(), 3);
    assert!(collector.current_trace().is_some());
}

fn run(events: Vec<BackendEvent>) -> (ProofTask, Vec<TaskStep>) {
    let mut task = ProofTask::new();
    let mut steps = Vec::new();
    for e in events {
        steps.push(task.on_event(e));
    }
    (task, steps)
}

#[test]
fn task_runs_through_to_success() {
    let mut task = ProofTask::new();
    assert_eq!(task.stage(), ProofStage::Proving);
    assert!(matches!(task.on_event(BackendEvent::Proved), TaskStep::Serialize));
    assert_eq!(task.stage(), ProofStage::Serializing);
    assert!(matches!(task.on_event(BackendEvent::Serialized { bytes: vec![9, 8, 7, 6] }), TaskStep::Deserialize));
    assert_eq!(task.stage(), ProofStage::Deserializing);
    assert_eq!(task.proof_bytes(), &vec![9, 8, 7, 6]);
    assert!(matches!(task.on_event(BackendEvent::Deserialized), TaskStep::Verify));
    assert_eq!(task.stage(), ProofStage::Verifying);
    match task.on_event(BackendEvent::Verified) {
        TaskStep::Done { result } => assert_eq!(result, Ok((vec![9, 8, 7, 6], 4))),
        other => panic!("unexpected step {:?}", other),
    }
    assert_eq!(task.stage(), ProofStage::Finished);
    assert!(matches!(task.on_event(BackendEvent::Verified), TaskStep::Ignored));
}

#[test]
fn task_ends_at_the_first_failure() {
    let cases: Vec<(Vec<BackendEvent>, FailureKind)> = vec![
        (vec![BackendEvent::ProverFaulted], FailureKind::ConstraintViolation),
        (vec![BackendEvent::Proved, BackendEvent::SerializationFailed], FailureKind::SerializationFailure),
        (
            vec![BackendEvent::Proved, BackendEvent::Serialized { bytes: vec![1] }, BackendEvent::DeserializationFailed],
            FailureKind::DeserializationFailure,
        ),
        (
            vec![
                BackendEvent::Proved,
                BackendEvent::Serialized { bytes: vec![1] },
                BackendEvent::Deserialized,
                BackendEvent::Rejected,
            ],
            FailureKind::BackendVerificationFailure,
        ),
    ];
    for (events, kind) in cases {
        let (task, steps) = run(events);
        assert_eq!(task.stage(), ProofStage::Finished);
        assert!(task.proof_bytes().is_empty());
        match steps.last().unwrap() {
            TaskStep::Done { result } => assert_eq!(*result, Err(kind)),
            other => panic!("unexpected step {:?}", other),
        }
    }
}

#[test]
fn task_ignores_an_answer_out_of_turn() {
    let (task, steps) = run(vec![BackendEvent::Verified, BackendEvent::Deserialized, BackendEvent::Rejected]);
    assert_eq!(task.stage(), ProofStage::Proving);
    assert!(steps.iter().all(|s| matches!(s, TaskStep::Ignored)));
    let (task, steps) = run(vec![BackendEvent::Proved, BackendEvent::Proved, BackendEvent::ProverFaulted]);
    assert_eq!(task.stage(), ProofStage::Serializing);
    assert!(matches!(steps[1], TaskStep::Ignored));
    assert!(matches!(steps[2], TaskStep::Ignored));
}

#[test]
fn conclude_counts_verification_time_only_where_it_began() {
    let ok = conclude(Ok((vec![1, 2], 2)), 40, 7);
    assert_eq!(ok.result, Ok((vec![1, 2], 2)));
    assert_eq!((ok.generation_time_ms, ok.verification_time_ms), (40, 7));
    assert_eq!(conclude(Err(FailureKind::ConstraintViolation), 40, 7).verification_time_ms, 0);
    assert_eq!(conclude(Err(FailureKind::SerializationFailure), 40, 7).verification_time_ms, 0);
    assert_eq!(conclude(Err(FailureKind::DeserializationFailure), 40, 7).verification_time_ms, 7);
    assert_eq!(conclude(Err(FailureKind::BackendVerificationFailure), 40, 7).verification_time_ms, 7);
    assert_eq!(conclude(Err(FailureKind::BackendVerificationFailure), 40, 7).generation_time_ms, 40);
}

fn playing_parts() -> (IntegrityState, Position, Velocity, MovementTraceCollector, ProofGenerator) {
    (
        IntegrityState::new(),
        Position { x: 30, y: -6 },
        Velocity { x: 200, y: 0 },
        MovementTraceCollector::new(20_000, 5),
        ProofGenerator::default(),
    )
}

#[test]
fn state_machine_starts_playing() {
    let integrity = IntegrityState::new();
    assert_eq!(integrity.current(), GameState::Playing);
    assert_eq!(GameState::default(), GameState::Playing);
    assert!(integrity.systems_enabled());
    assert!(!integrity.notice().is_active);
    assert!(integrity.notice().message.is_empty());
    let notice = CheatDetected::default();
    assert!(!notice.is_active && notice.message.is_empty());
}

#[test]
fn no_failure_no_violation() {
    let (mut integrity, _, _, mut collector, mut generator) = playing_parts();
    let job = generator.submit(&resting(2)).unwrap();
    generator.complete(job.task, &success(3, 1));
    collector.add_movement(Position { x: 0, y: 0 }, Velocity { x: 0, y: 0 }, STILL, 0);
    assert!(!integrity.cheat_detection(&mut collector, &generator));
    assert_eq!(integrity.current(), GameState::Playing);
    assert!(collector.current_trace().is_some());
}

#[test]
fn failed_proof_halts_the_simulation() {
    let (mut integrity, _, _, mut collector, mut generator) = playing_parts();
    for i in 0..5 {
        collector.add_movement(Position { x: 0, y: 0 }, Velocity { x: 0, y: 0 }, STILL, i * 10_000);
    }
    let job = generator.submit_next(&mut collector).unwrap().unwrap();
    let mut task = ProofTask::new();
    let result = match task.on_event(BackendEvent::ProverFaulted) {
        TaskStep::Done { result } => conclude(result, 12, 5),
        other => panic!("unexpected step {:?}", other),
    };
    assert_eq!(result.result, Err(FailureKind::ConstraintViolation));
    assert!(generator.complete(job.task, &result));
    assert!(collector.completed_len() > 0);
    assert!(integrity.cheat_detection(&mut collector, &generator));
    assert_eq!(integrity.current(), GameState::CheatDetected);
    assert!(!integrity.systems_enabled());
    assert!(integrity.notice().is_active);
    assert_eq!(integrity.notice().message, CHEAT_MESSAGE);
    assert_eq!(collector.completed_len(), 0);
    assert!(collector.current_trace().is_none());
    assert!(!integrity.cheat_detection(&mut collector, &generator));
    assert_eq!(integrity.current(), GameState::CheatDetected);
}

#[test]
fn every_failure_kind_halts_the_simulation() {
    for kind in [
        FailureKind::SerializationFailure,
        FailureKind::ConstraintViolation,
        FailureKind::BackendVerificationFailure,
        FailureKind::DeserializationFailure,
    ] {
        let (mut integrity, _, _, mut collector, mut generator) = playing_parts();
        let job = generator.submit(&resting(2)).unwrap();
        generator.complete(job.task, &failure(kind));
        assert!(integrity.cheat_detection(&mut collector, &generator));
        assert_eq!(integrity.current(), GameState::CheatDetected);
    }
}

#[test]
fn acknowledge_while_playing_changes_nothing() {
    let (mut integrity, mut position, mut velocity, mut collector, mut generator) = playing_parts();
    collector.add_movement(position, velocity, STILL, 0);
    collector.add_movement(position, velocity, STILL, 20_000);
    let job = generator.submit(&resting(2)).unwrap();
    generator.complete(job.task, &success(3, 1));
    generator.submit(&resting(2)).unwrap();
    assert!(!integrity.acknowledge_violation(&mut position, &mut velocity, &mut collector, &mut generator));
    assert_eq!(integrity.current(), GameState::Playing);
    assert_eq!(position, Position { x: 30, y: -6 });
    assert_eq!(velocity, Velocity { x: 200, y: 0 });
    assert_eq!(collector.completed_len(), 1);
    assert_eq!(collector.current_trace().unwrap().steps.len(), 1);
    assert!(!collector.current_trace().unwrap().is_first_trace_after_reset);
    assert_eq!(generator.active_count(), 1);
    assert_eq!(generator.completed_count(), 1);
    assert_eq!(snapshot(generator.stats()), (1, 3, 1, 1, 0, [0, 0, 0, 0]));
}

#[test]
fn acknowledgement_resets_and_marks_the_next_window() {
    let (mut integrity, mut position, mut velocity, mut collector, mut generator) = playing_parts();
    let job = generator.submit(&resting(2)).unwrap();
    let stale = generator.submit(&resting(2)).unwrap();
    generator.complete(job.task, &failure(FailureKind::ConstraintViolation));
    assert!(integrity.cheat_detection(&mut collector, &generator));
    assert!(integrity.acknowledge_violation(&mut position, &mut velocity, &mut collector, &mut generator));
    assert_eq!(integrity.current(), GameState::Playing);
    assert!(!integrity.notice().is_active);
    assert!(integrity.notice().message.is_empty());
    assert_eq!(position, Position { x: 0, y: 0 });
    assert_eq!(velocity, Velocity { x: 0, y: 0 });
    assert_eq!(generator.active_count(), 0);
    assert_eq!(snapshot(generator.stats()), (0, 0, 0, 0, 0, [0, 0, 0, 0]));

    assert!(!generator.complete(stale.task, &failure(FailureKind::ConstraintViolation)));
    assert!(!integrity.cheat_detection(&mut collector, &generator));
    assert_eq!(integrity.current(), GameState::Playing);

    collector.add_movement(Position { x: 5, y: 0 }, Velocity { x: 0, y: 0 }, STILL, 0);
    collector.add_movement(Position { x: 5, y: 0 }, Velocity { x: 0, y: 0 }, STILL, 20_000);
    let window = collector.get_next_trace_for_proving().unwrap();
    assert!(window.is_first_trace_after_reset);
    assert_eq!(generator.submit(&window).err(), Some(ArithmetizeError::StructuralViolation));
}
