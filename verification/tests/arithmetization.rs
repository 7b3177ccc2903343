use movement_integrity::check_constraints::{
    check_movement_constraints, check_row, check_transition, row_from_cells, ConstraintError,
};
use movement_integrity::encoding::{
    decode_position, encode_flag, encode_position, encode_velocity, expected_velocity,
};
use movement_integrity::matrix::TraceMatrix;
use movement_integrity::movement_air::{
    arithmetize, encode_step, encode_window, generate_cheat_detected_matrix, generate_movement_trace_matrix,
    next_power_of_2, ArithmetizeError, Constraint, MovementAir, MovementRow, NUM_MOVEMENT_COLS,
};
use movement_integrity::movement_trace::{InputFlags, MovementStep, MovementTrace};
use movement_integrity::simulation::{Position, Velocity};

fn flags(left: bool, right: bool, up: bool, down: bool) -> InputFlags {
    InputFlags { left, right, up, down }
}

fn step(x: i32, y: i32, vx: i32, vy: i32, inputs: InputFlags, timestamp: u64) -> MovementStep {
    MovementStep { position: Position { x, y }, velocity: Velocity { x: vx, y: vy }, inputs, timestamp }
}

fn window(steps: Vec<MovementStep>) -> MovementTrace {
    let mut trace = MovementTrace::new(0);
    for s in steps {
        trace.add_step(s);
    }
    trace
}

fn rightward_window() -> Vec<MovementStep> {
    let right = flags(false, true, false, false);
    vec![
        step(0, 0, 200, 0, right, 0),
        step(3, 0, 200, 0, right, 16_000),
        step(6, 0, 200, 0, right, 32_000),
        step(9, 0, 200, 0, right, 48_000),
        step(12, 0, 200, 0, right, 64_000),
    ]
}

#[test]
fn next_power_of_2_of_small_numbers() {
    assert_eq!(next_power_of_2(0), 1);
    assert_eq!(next_power_of_2(1), 1);
    assert_eq!(next_power_of_2(2), 2);
    assert_eq!(next_power_of_2(3), 4);
    assert_eq!(next_power_of_2(5), 8);
    assert_eq!(next_power_of_2(8), 8);
    assert_eq!(next_power_of_2(9), 16);
    assert_eq!(next_power_of_2(1000), 1024);
}

#[test]
fn next_power_of_2_at_the_top() {
    let top = usize::MAX / 2 + 1;
    assert_eq!(next_power_of_2(top), top);
    assert_eq!(next_power_of_2(top - 1), top);
}

#[test]
fn air_has_eight_columns() {
    assert_eq!(MovementAir::new().width(), 8);
    assert_eq!(NUM_MOVEMENT_COLS, 8);
}

#[test]
fn position_encoding_values() {
    assert_eq!(encode_position(0), Some(50_000_000));
    assert_eq!(encode_position(3), Some(50_003_000));
    assert_eq!(encode_position(-3), Some(49_997_000));
    assert_eq!(encode_position(49_999), Some(99_999_000));
    assert_eq!(encode_position(-49_999), Some(1_000));
}

#[test]
fn position_outside_the_bound_is_refused() {
    assert_eq!(encode_position(50_000), None);
    assert_eq!(encode_position(-50_000), None);
    assert_eq!(encode_position(i32::MAX), None);
    assert_eq!(encode_position(i32::MIN), None);
}

#[test]
fn decode_inverts_encode_within_the_bound() {
    for p in [-49_999, -400, -1, 0, 1, 3, 300, 49_999] {
        let e = encode_position(p).unwrap();
        assert_eq!(decode_position(e), Some(p));
    }
}

#[test]
fn decode_refuses_what_is_no_encoding() {
    assert_eq!(decode_position(0), None);
    assert_eq!(decode_position(50_000_001), None);
    assert_eq!(decode_position(100_000_000), None);
    assert_eq!(decode_position(u64::MAX), None);
    assert_eq!(decode_position(50_000_000), Some(0));
}

#[test]
fn velocity_encoding_values() {
    assert_eq!(encode_velocity(0), Some(1000));
    assert_eq!(encode_velocity(200), Some(1200));
    assert_eq!(encode_velocity(-200), Some(800));
    assert_eq!(encode_velocity(-1000), Some(0));
    assert_eq!(encode_velocity(999), Some(1999));
    assert_eq!(encode_velocity(1000), None);
    assert_eq!(encode_velocity(-1001), None);
}

#[test]
fn flag_encoding_values() {
    assert_eq!(encode_flag(true), 1);
    assert_eq!(encode_flag(false), 0);
}

#[test]
fn expected_velocity_of_every_flag_combination() {
    for bits in 0..16u32 {
        let f = flags(bits & 1 != 0, bits & 2 != 0, bits & 4 != 0, bits & 8 != 0);
        let v = expected_velocity(f);
        let x = (f.right as i32 - f.left as i32) * 200;
        let y = (f.up as i32 - f.down as i32) * 200;
        assert_eq!(v, Velocity { x, y });
        assert_eq!(expected_velocity(f), v);
    }
}

#[test]
fn encode_step_values() {
    let row = encode_step(&step(3, -2, 200, -200, flags(false, true, false, true), 7)).unwrap();
    assert_eq!(row.position_x, 50_003_000);
    assert_eq!(row.position_y, 49_998_000);
    assert_eq!(row.velocity_x, 1200);
    assert_eq!(row.velocity_y, 800);
    assert_eq!(row.input_left, 0);
    assert_eq!(row.input_right, 1);
    assert_eq!(row.input_up, 0);
    assert_eq!(row.input_down, 1);
    assert!(encode_step(&step(50_000, 0, 0, 0, flags(false, false, false, false), 0)).is_none());
    assert!(encode_step(&step(0, 0, 0, 1000, flags(false, false, false, false), 0)).is_none());
}

#[test]
fn window_cells_with_padding() {
    let trace = window(rightward_window());
    let cells = encode_window(&trace, 8).unwrap();
    assert_eq!(cells.len(), 64);
    assert_eq!(&cells[0..8], &[50_000_000, 50_000_000, 1200, 1000, 0, 1, 0, 0]);
    assert_eq!(&cells[8..16], &[50_003_000, 50_000_000, 1200, 1000, 0, 1, 0, 0]);
    assert_eq!(&cells[32..40], &[50_012_000, 50_000_000, 1200, 1000, 0, 1, 0, 0]);
    for r in 5..8 {
        assert_eq!(&cells[r * 8..r * 8 + 8], &[50_012_000, 50_000_000, 1000, 1000, 0, 0, 0, 0]);
    }
}

#[test]
fn empty_window_is_all_zeros() {
    let trace = MovementTrace::new(0);
    let cells = encode_window(&trace, 8).unwrap();
    assert_eq!(cells, vec![0u64; 64]);
}

#[test]
fn matrix_holds_the_window_cells() {
    let trace = window(rightward_window());
    let cells = encode_window(&trace, 8).unwrap();
    let matrix = generate_movement_trace_matrix(&trace, 8).unwrap();
    assert_eq!(matrix.width(), 8);
    assert_eq!(matrix.height(), 8);
    for r in 0..8 {
        assert_eq!(matrix.row(r).unwrap(), cells[r * 8..r * 8 + 8].to_vec());
    }
    assert!(matrix.row(8).is_none());
}

#[test]
fn arithmetize_picks_the_height() {
    let short = arithmetize(&window(rightward_window())).unwrap();
    assert_eq!(short.height(), 8);
    let still = flags(false, false, false, false);
    let nine: Vec<MovementStep> = (0..9).map(|i| step(0, 0, 0, 0, still, i)).collect();
    let tall = arithmetize(&window(nine)).unwrap();
    assert_eq!(tall.height(), 16);
    assert_eq!(tall.width(), 8);
}

#[test]
fn encoding_overflow_names_the_first_sample() {
    let still = flags(false, false, false, false);
    let trace = window(vec![step(0, 0, 0, 0, still, 0), step(60_000, 0, 0, 0, still, 1), step(70_000, 0, 0, 0, still, 2)]);
    assert_eq!(encode_window(&trace, 8).err(), Some(ArithmetizeError::EncodingOverflow { step: 1 }));
    assert_eq!(
        generate_movement_trace_matrix(&trace, 8).err(),
        Some(ArithmetizeError::EncodingOverflow { step: 1 })
    );
    assert_eq!(arithmetize(&trace).err(), Some(ArithmetizeError::EncodingOverflow { step: 1 }));
}

#[test]
fn first_window_after_reset_must_start_at_origin() {
    let still = flags(false, false, false, false);
    let mut trace = window(vec![step(5, 0, 0, 0, still, 0), step(5, 0, 0, 0, still, 1)]);
    trace.is_first_trace_after_reset = true;
    assert_eq!(arithmetize(&trace).err(), Some(ArithmetizeError::StructuralViolation));
    let mut moving = window(vec![step(0, 0, 200, 0, flags(false, true, false, false), 0)]);
    moving.is_first_trace_after_reset = true;
    assert_eq!(encode_window(&moving, 8).err(), Some(ArithmetizeError::StructuralViolation));
    let mut good = window(vec![step(0, 0, 0, 0, still, 0), step(0, 0, 0, 0, still, 1)]);
    good.is_first_trace_after_reset = true;
    assert!(arithmetize(&good).is_ok());
    trace.is_first_trace_after_reset = false;
    assert!(arithmetize(&trace).is_ok());
}

#[test]
fn structural_violation_comes_before_overflow() {
    let still = flags(false, false, false, false);
    let mut trace = window(vec![step(60_000, 0, 0, 0, still, 0)]);
    trace.is_first_trace_after_reset = true;
    assert_eq!(arithmetize(&trace).err(), Some(ArithmetizeError::StructuralViolation));
}

#[test]
fn constant_rightward_movement_is_accepted() {
    let matrix = arithmetize(&window(rightward_window())).unwrap();
    assert_eq!(check_movement_constraints(&MovementAir::new(), &matrix), Ok(()));
}

#[test]
fn teleport_breaks_the_transition_constraint() {
    let mut steps = rightward_window();
    steps[3].position.x = 300;
    let matrix = arithmetize(&window(steps)).unwrap();
    assert_eq!(
        check_movement_constraints(&MovementAir::new(), &matrix),
        Err(ConstraintError::Violated { row: 2, constraint: Constraint::PositionX })
    );
}

#[test]
fn doubled_velocity_breaks_the_velocity_constraint() {
    let mut steps = rightward_window();
    for s in steps.iter_mut() {
        s.velocity.x = 400;
    }
    let matrix = arithmetize(&window(steps)).unwrap();
    assert_eq!(
        check_movement_constraints(&MovementAir::new(), &matrix),
        Err(ConstraintError::Violated { row: 0, constraint: Constraint::VelocityX })
    );
}

#[test]
fn leftward_and_downward_movement_is_accepted() {
    let f = flags(true, false, false, true);
    let steps = vec![step(0, 0, -200, -200, f, 0), step(-3, -3, -200, -200, f, 1), step(-6, -6, -200, -200, f, 2)];
    let matrix = arithmetize(&window(steps)).unwrap();
    assert_eq!(check_movement_constraints(&MovementAir::new(), &matrix), Ok(()));
}

#[test]
fn empty_window_breaks_the_velocity_constraint() {
    let matrix = arithmetize(&MovementTrace::new(0)).unwrap();
    assert_eq!(
        check_movement_constraints(&MovementAir::new(), &matrix),
        Err(ConstraintError::Violated { row: 0, constraint: Constraint::VelocityX })
    );
}

fn row(cells: [u64; 8]) -> MovementRow<u64> {
    row_from_cells(&cells.to_vec())
}

#[test]
fn row_constraints_one_by_one() {
    assert_eq!(check_row(&row([0, 0, 1000, 1000, 0, 0, 0, 0])), None);
    assert_eq!(check_row(&row([0, 0, 800, 1200, 1, 0, 1, 0])), None);
    assert_eq!(check_row(&row([0, 0, 1200, 800, 0, 1, 0, 1])), None);
    assert_eq!(check_row(&row([0, 0, 1000, 1000, 1, 1, 1, 1])), None);
    assert_eq!(check_row(&row([0, 0, 1000, 1000, 2, 0, 0, 0])), Some(Constraint::BooleanLeft));
    assert_eq!(check_row(&row([0, 0, 1000, 1000, 0, 2, 0, 0])), Some(Constraint::BooleanRight));
    assert_eq!(check_row(&row([0, 0, 1000, 1000, 0, 0, 7, 0])), Some(Constraint::BooleanUp));
    assert_eq!(check_row(&row([0, 0, 1000, 1000, 0, 0, 0, 9])), Some(Constraint::BooleanDown));
    assert_eq!(check_row(&row([0, 0, 1200, 1000, 0, 0, 0, 0])), Some(Constraint::VelocityX));
    assert_eq!(check_row(&row([0, 0, 1000, 1200, 0, 0, 0, 0])), Some(Constraint::VelocityY));
    assert_eq!(check_row(&row([0, 0, 9999, 9999, 0, 0, 0, 0])), Some(Constraint::VelocityX));
}

#[test]
fn transition_constraints_one_by_one() {
    let local = row([50_000_000, 50_000_000, 1000, 1000, 0, 0, 0, 0]);
    assert_eq!(check_transition(&local, &row([50_003_000, 49_997_000, 1200, 800, 0, 1, 0, 1])), None);
    assert_eq!(
        check_transition(&local, &row([50_003_001, 49_997_000, 1200, 800, 0, 1, 0, 1])),
        Some(Constraint::PositionX)
    );
    assert_eq!(
        check_transition(&local, &row([50_003_000, 50_000_000, 1200, 800, 0, 1, 0, 1])),
        Some(Constraint::PositionY)
    );
}

#[test]
fn transition_wraps_in_the_field() {
    let prime: u64 = 2013265921;
    let local = row([1000, prime - 1, 1000, 1000, 0, 0, 0, 0]);
    let next = row([prime - 14_000, 2999, 0, 1200, 0, 0, 0, 0]);
    assert_eq!(check_transition(&local, &next), None);
}

#[test]
fn matrix_from_cells_reduces_and_keeps_order() {
    let prime: u64 = 2013265921;
    let m = TraceMatrix::from_cells(vec![0, 1, prime - 1, prime, prime + 5, u64::MAX], 3).unwrap();
    assert_eq!(m.width(), 3);
    assert_eq!(m.height(), 2);
    assert_eq!(m.row(0).unwrap(), vec![0, 1, prime - 1]);
    assert_eq!(m.row(1).unwrap(), vec![0, 5, u64::MAX % prime]);
    assert!(m.row(2).is_none());
    assert!(TraceMatrix::from_cells(vec![1, 2, 3], 2).is_none());
    let empty = TraceMatrix::from_cells(Vec::new(), 0).unwrap();
    assert_eq!((empty.width(), empty.height()), (0, 0));
    assert!(empty.row(0).is_none());
}

#[test]
fn matrix_of_another_width_is_refused() {
    let m = TraceMatrix::from_cells(vec![0; 12], 4).unwrap();
    assert_eq!(check_movement_constraints(&MovementAir::new(), &m), Err(ConstraintError::WrongWidth));
}

#[test]
fn first_broken_constraint_is_reported() {
    let good = [50_000_000u64, 50_000_000, 1000, 1000, 0, 0, 0, 0];
    let mut cells: Vec<u64> = Vec::new();
    for _ in 0..4 {
        cells.extend_from_slice(&good);
    }
    let air = MovementAir::new();
    assert_eq!(check_movement_constraints(&air, &TraceMatrix::from_cells(cells.clone(), 8).unwrap()), Ok(()));
    let mut flag = cells.clone();
    flag[2 * 8 + 6] = 2;
    flag[3 * 8 + 2] = 5;
    assert_eq!(
        check_movement_constraints(&air, &TraceMatrix::from_cells(flag, 8).unwrap()),
        Err(ConstraintError::Violated { row: 2, constraint: Constraint::BooleanUp })
    );
    let mut last = cells.clone();
    last[3 * 8 + 1] = 50_000_001;
    assert_eq!(
        check_movement_constraints(&air, &TraceMatrix::from_cells(last, 8).unwrap()),
        Err(ConstraintError::Violated { row: 2, constraint: Constraint::PositionY })
    );
    let mut first = cells;
    first[0] = 7;
    assert_eq!(
        check_movement_constraints(&air, &TraceMatrix::from_cells(first, 8).unwrap()),
        Err(ConstraintError::Violated { row: 0, constraint: Constraint::PositionX })
    );
    assert_eq!(check_movement_constraints(&air, &TraceMatrix::from_cells(Vec::new(), 8).unwrap()), Ok(()));
}

#[test]
fn last_row_has_no_transition() {
    let cells = vec![50_000_000u64, 50_000_000, 1000, 1000, 0, 0, 0, 0];
    let m = TraceMatrix::from_cells(cells, 8).unwrap();
    assert_eq!(check_movement_constraints(&MovementAir::new(), &m), Ok(()));
}

#[test]
fn cheat_detected_matrix_is_refused() {
    let m = generate_cheat_detected_matrix(4);
    assert_eq!((m.width(), m.height()), (8, 4));
    for r in 0..4 {
        assert_eq!(m.row(r).unwrap(), vec![50_000_000, 50_000_000, 9999, 9999, 0, 0, 0, 0]);
    }
    assert_eq!(
        check_movement_constraints(&MovementAir::new(), &m),
        Err(ConstraintError::Violated { row: 0, constraint: Constraint::VelocityX })
    );
    assert_eq!(generate_cheat_detected_matrix(0).height(), 0);
}

#[test]
fn window_longer_than_the_trace_is_refused() {
    let trace = window(rightward_window());
    assert_eq!(encode_window(&trace, 4).err(), Some(ArithmetizeError::WindowTooLong));
    assert_eq!(encode_window(&trace, 0).err(), Some(ArithmetizeError::WindowTooLong));
    assert!(encode_window(&trace, 5).is_ok());
    let mut marked = window(rightward_window());
    marked.is_first_trace_after_reset = true;
    assert_eq!(encode_window(&marked, 4).err(), Some(ArithmetizeError::WindowTooLong));
    assert_eq!(encode_window(&marked, 8).err(), Some(ArithmetizeError::StructuralViolation));
}
