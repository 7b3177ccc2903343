use movement_integrity::encoding::VELOCITY_BIAS;
use movement_integrity::matrix::TraceMatrix;
use movement_integrity::movement_air::{arithmetize, NUM_MOVEMENT_COLS};
use movement_integrity::movement_trace::{InputFlags, MovementStep, MovementTrace};
use movement_integrity::proof_system::FailureKind;
use movement_integrity::proof_task::{BackendEvent, ProofTask, TaskStep};
use movement_integrity::simulation::{Position, Velocity, MOVEMENT_SPEED, PHYSICS_FACTOR};
use p3_air::{Air, AirBuilder, BaseAir};
use p3_baby_bear::{BabyBear, Poseidon2BabyBear};
use p3_challenger::DuplexChallenger;
use p3_commit::ExtensionMmcs;
use p3_dft::Radix2DitParallel;
use p3_field::extension::BinomialExtensionField;
use p3_field::{Field, PrimeCharacteristicRing};
use p3_fri::{create_test_fri_params, TwoAdicFriPcs};
use p3_matrix::dense::RowMajorMatrix;
use p3_matrix::Matrix;
use p3_merkle_tree::MerkleTreeMmcs;
use p3_symmetric::{PaddingFreeSponge, TruncatedPermutation};
use p3_uni_stark::{prove, verify, Proof, StarkConfig};
use rand::rngs::SmallRng;
use rand::SeedableRng;

type Val = BabyBear;
type Perm = Poseidon2BabyBear<16>;
type MyHash = PaddingFreeSponge<Perm, 16, 8, 8>;
type MyCompress = TruncatedPermutation<Perm, 2, 8, 16>;
type ValMmcs = MerkleTreeMmcs<<Val as Field>::Packing, <Val as Field>::Packing, MyHash, MyCompress, 8>;
type Challenge = BinomialExtensionField<Val, 4>;
type ChallengeMmcs = ExtensionMmcs<Val, Challenge, ValMmcs>;
type Challenger = DuplexChallenger<Val, Perm, 16, 8>;
type Dft = Radix2DitParallel<Val>;
type Pcs = TwoAdicFriPcs<Val, Dft, ValMmcs, ChallengeMmcs>;
type MyConfig = StarkConfig<Pcs, Challenge, Challenger>;

struct BackendAir;

impl<F> BaseAir<F> for BackendAir {
    fn width(&self) -> usize {
        NUM_MOVEMENT_COLS
    }
}

impl<AB: AirBuilder> Air<AB> for BackendAir {
    fn eval(&self, builder: &mut AB) {
        let main = builder.main();
        let local = main.row_slice(0).expect("matrix is empty");
        let next = main.row_slice(1).expect("matrix has one row");
        for flag in 4..8 {
            builder.assert_bool(local[flag].clone());
        }
        let bias = AB::Expr::from(AB::F::from_u64(VELOCITY_BIAS as u64));
        let speed = AB::Expr::from(AB::F::from_u64(MOVEMENT_SPEED as u64));
        let factor = AB::Expr::from(AB::F::from_u64(PHYSICS_FACTOR as u64));
        let expected_x = (local[5].clone() - local[4].clone()) * speed.clone() + bias.clone();
        let expected_y = (local[6].clone() - local[7].clone()) * speed + bias.clone();
        builder.assert_eq(local[2].clone(), expected_x);
        builder.assert_eq(local[3].clone(), expected_y);
        let next_x = local[0].clone() + (next[2].clone() - bias.clone()) * factor.clone();
        let next_y = local[1].clone() + (next[3].clone() - bias) * factor;
        let mut transition = builder.when_transition();
        transition.assert_eq(next[0].clone(), next_x);
        transition.assert_eq(next[1].clone(), next_y);
    }
}

fn stark_config() -> MyConfig {
    let mut rng = SmallRng::seed_from_u64(42);
    let perm = Perm::new_from_rng_128(&mut rng);
    let hash = MyHash::new(perm.clone());
    let compress = MyCompress::new(perm.clone());
    let val_mmcs = ValMmcs::new(hash, compress);
    let challenge_mmcs = ChallengeMmcs::new(val_mmcs.clone());
    let fri_params = create_test_fri_params(challenge_mmcs, 2);
    let pcs = Pcs::new(Dft::default(), val_mmcs, fri_params);
    MyConfig::new(pcs, Challenger::new(perm))
}

fn backend_matrix(matrix: &TraceMatrix) -> RowMajorMatrix<Val> {
    let mut values: Vec<Val> = Vec::new();
    for r in 0..matrix.height() {
        values.extend(matrix.row(r).unwrap().into_iter().map(Val::from_u64));
    }
    RowMajorMatrix::new(values, matrix.width())
}

fn rightward() -> MovementTrace {
    let mut trace = MovementTrace::new(0);
    for i in 0..5u64 {
        trace.add_step(MovementStep {
            position: Position { x: 3 * i as i32, y: 0 },
            velocity: Velocity { x: 200, y: 0 },
            inputs: InputFlags { left: false, right: true, up: false, down: false },
            timestamp: i * 16_000,
        });
    }
    trace
}

fn run_task(trace: &MovementTrace) -> Result<(Vec<u8>, usize), FailureKind> {
    let config = stark_config();
    let matrix = backend_matrix(&arithmetize(trace).unwrap());
    let mut task = ProofTask::new();
    let proof = Some(prove(&config, &BackendAir, matrix, &vec![]));
    let mut event = BackendEvent::Proved;
    let mut read_back: Option<Proof<MyConfig>> = None;
    loop {
        event = match task.on_event(event) {
            TaskStep::Serialize => match bincode::serialize(proof.as_ref().unwrap()) {
                Ok(bytes) => BackendEvent::Serialized { bytes },
                Err(_) => BackendEvent::SerializationFailed,
            },
            TaskStep::Deserialize => match bincode::deserialize::<Proof<MyConfig>>(task.proof_bytes()) {
                Ok(p) => {
                    read_back = Some(p);
                    BackendEvent::Deserialized
                }
                Err(_) => BackendEvent::DeserializationFailed,
            },
            TaskStep::Verify => match verify(&config, &BackendAir, read_back.as_ref().unwrap(), &vec![]) {
                Ok(()) => BackendEvent::Verified,
                Err(_) => BackendEvent::Rejected,
            },
            TaskStep::Done { result } => return result,
            TaskStep::Ignored => unreachable!(),
        };
    }
}

#[test]
fn honest_window_is_proved_and_verified() {
    let (bytes, size) = run_task(&rightward()).unwrap();
    assert!(size > 0);
    assert_eq!(bytes.len(), size);
}

#[test]
fn proof_bytes_that_were_cut_do_not_read_back() {
    let (bytes, _) = run_task(&rightward()).unwrap();
    let mut task = ProofTask::new();
    assert!(matches!(task.on_event(BackendEvent::Proved), TaskStep::Serialize));
    let cut = bytes[..bytes.len() / 2].to_vec();
    assert!(matches!(task.on_event(BackendEvent::Serialized { bytes: cut }), TaskStep::Deserialize));
    let event = match bincode::deserialize::<Proof<MyConfig>>(task.proof_bytes()) {
        Ok(_) => BackendEvent::Deserialized,
        Err(_) => BackendEvent::DeserializationFailed,
    };
    match task.on_event(event) {
        TaskStep::Done { result } => assert_eq!(result, Err(FailureKind::DeserializationFailure)),
        other => panic!("unexpected step {:?}", other),
    }
}

#[test]
fn backend_matrix_holds_the_trace() {
    let trace = rightward();
    let matrix = backend_matrix(&arithmetize(&trace).unwrap());
    assert_eq!((matrix.width(), matrix.height()), (8, 8));
    assert_eq!(matrix.get(1, 0), Some(Val::from_u64(50_003_000)));
    assert_eq!(matrix.get(7, 2), Some(Val::from_u64(1000)));
}
