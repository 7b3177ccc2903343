//! Evaluation of the movement constraints on a trace matrix.

use crate::encoding::VELOCITY_BIAS;
use crate::field::{add_in_field, mul_in_field, sub_in_field};
use crate::matrix::{matrix_height, matrix_row, matrix_width, TraceMatrix};
use crate::movement_air::{
    expected_position_cell, expected_velocity_cell, row_of_cells, row_violation, transition_violation, violation_at,
    Constraint, MovementAir, MovementRow, NUM_MOVEMENT_COLS,
};
use crate::simulation::{MOVEMENT_SPEED, PHYSICS_FACTOR};
use vstd::prelude::*;

verus! {

/// Why a matrix does not satisfy the movement constraints.
#[derive(Clone, Copy, Debug, PartialEq, Eq, Structural)]
pub enum ConstraintError {
    /// The matrix does not have the eight columns of a movement trace.
    WrongWidth,
    /// `constraint` is the first one broken, and `row` the first row that
    /// breaks one.
    Violated { row: usize, constraint: Constraint },
}

/// The rows of a matrix of eight columns.
pub open spec fn matrix_rows(m: TraceMatrix) -> Seq<MovementRow<u64>> {
    Seq::new(matrix_height(m), |r: int| row_of_cells(matrix_row(m, r)))
}

/// What the evaluation of the constraints on a matrix gives.
pub open spec fn check_spec(air: MovementAir, m: TraceMatrix, result: Result<(), ConstraintError>) -> bool {
    match result {
        Ok(()) => matrix_width(m) == NUM_MOVEMENT_COLS && air.satisfied_by(matrix_rows(m)),
        Err(ConstraintError::WrongWidth) => matrix_width(m) != NUM_MOVEMENT_COLS,
        Err(ConstraintError::Violated { row, constraint }) => {
            &&& matrix_width(m) == NUM_MOVEMENT_COLS
            &&& row < matrix_height(m)
            &&& violation_at(matrix_rows(m), row as int) == Some(constraint)
            &&& forall|r: int| 0 <= r < row ==> (#[trigger] violation_at(matrix_rows(m), r)) is None
        },
    }
}

/// The row that eight cells make.
pub fn row_from_cells(cells: &Vec<u64>) -> (row: MovementRow<u64>)
    requires
        cells@.len() == NUM_MOVEMENT_COLS,
    ensures
        row == row_of_cells(cells@),
{
    MovementRow {
        position_x: cells[0],
        position_y: cells[1],
        velocity_x: cells[2],
        velocity_y: cells[3],
        input_left: cells[4],
        input_right: cells[5],
        input_up: cells[6],
        input_down: cells[7],
    }
}

/// The first constraint on a single row that `local` breaks, if any.
pub fn check_row(local: &MovementRow<u64>) -> (violation: Option<Constraint>)
    ensures
        violation == row_violation(*local),
{
    if local.input_left != 0 && local.input_left != 1 {
        return Some(Constraint::BooleanLeft);
    }
    if local.input_right != 0 && local.input_right != 1 {
        return Some(Constraint::BooleanRight);
    }
    if local.input_up != 0 && local.input_up != 1 {
        return Some(Constraint::BooleanUp);
    }
    if local.input_down != 0 && local.input_down != 1 {
        return Some(Constraint::BooleanDown);
    }
    let speed = MOVEMENT_SPEED as u64;
    let bias = VELOCITY_BIAS as u64;
    let expected_x = add_in_field(mul_in_field(sub_in_field(local.input_right, local.input_left), speed), bias);
    if local.velocity_x != expected_x {
        return Some(Constraint::VelocityX);
    }
    let expected_y = add_in_field(mul_in_field(sub_in_field(local.input_up, local.input_down), speed), bias);
    if local.velocity_y != expected_y {
        return Some(Constraint::VelocityY);
    }
    None
}

/// The first constraint that the transition from `local` to `next` breaks,
/// if any.
pub fn check_transition(local: &MovementRow<u64>, next: &MovementRow<u64>) -> (violation: Option<Constraint>)
    ensures
        violation == transition_violation(*local, *next),
{
    let factor = PHYSICS_FACTOR as u64;
    let bias = VELOCITY_BIAS as u64;
    let expected_x = add_in_field(local.position_x, mul_in_field(sub_in_field(next.velocity_x, bias), factor));
    if next.position_x != expected_x {
        return Some(Constraint::PositionX);
    }
    let expected_y = add_in_field(local.position_y, mul_in_field(sub_in_field(next.velocity_y, bias), factor));
    if next.position_y != expected_y {
        return Some(Constraint::PositionY);
    }
    None
}

proof fn lemma_row_has_width(m: TraceMatrix, r: int)
    requires
        matrix_width(m) == NUM_MOVEMENT_COLS,
        0 <= r < matrix_height(m),
    ensures
        matrix_row(m, r).len() == NUM_MOVEMENT_COLS,
{
}

/// Evaluates the movement constraints on every row of a matrix, first row
/// first, and reports the first one broken.
pub fn check_movement_constraints(air: &MovementAir, trace_matrix: &TraceMatrix) -> (result: Result<
    (),
    ConstraintError,
>)
    ensures
        check_spec(*air, *trace_matrix, result),
{
    if trace_matrix.width() != NUM_MOVEMENT_COLS {
        return Err(ConstraintError::WrongWidth);
    }
    let height = trace_matrix.height();
    let ghost rows = matrix_rows(*trace_matrix);
    let mut row_index: usize = 0;
    while row_index < height
        invariant
            row_index <= height,
            height == matrix_height(*trace_matrix),
            matrix_width(*trace_matrix) == NUM_MOVEMENT_COLS,
            rows == matrix_rows(*trace_matrix),
            forall|r: int| 0 <= r < row_index ==> (#[trigger] violation_at(rows, r)) is None,
        decreases height - row_index,
    {
        proof {
            lemma_row_has_width(*trace_matrix, row_index as int);
        }
        let local_cells = trace_matrix.row(row_index).unwrap();
        let local = row_from_cells(&local_cells);
        if let Some(constraint) = check_row(&local) {
            return Err(ConstraintError::Violated { row: row_index, constraint });
        }
        if row_index != height - 1 {
            proof {
                lemma_row_has_width(*trace_matrix, row_index + 1);
            }
            let next_cells = trace_matrix.row(row_index + 1).unwrap();
            let next = row_from_cells(&next_cells);
            if let Some(constraint) = check_transition(&local, &next) {
                return Err(ConstraintError::Violated { row: row_index, constraint });
            }
        }
        row_index += 1;
    }
    Ok(())
}

} // verus!
