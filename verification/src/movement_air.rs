//! The movement constraint system and the encoding of a window as its trace.

use crate::encoding::{
    decode_position_spec, encode_flag, encode_flag_spec, encode_position, encode_position_spec, encode_velocity,
    encode_velocity_spec, expected_velocity_spec, lemma_decode_inverts_encode, position_in_bound, velocity_in_bound,
    POSITION_BIAS, POSITION_FACTOR, POSITION_RANGE, VELOCITY_BIAS,
};
use crate::field::{field_add, field_mul, field_sub, reduce};
use crate::matrix::{matrix_cells, matrix_from_cells, matrix_height, matrix_width, TraceMatrix};
use crate::movement_trace::{
    keep_last, recorded_samples, CollectorOp, CollectorView, InputFlags, MovementStep, MovementTrace, TraceView,
};
use crate::simulation::{
    advance_spec, effective_inputs_spec, velocity_for_keys_spec, Position, Velocity, MOVEMENT_SPEED, PHYSICS_FACTOR,
};
use vstd::arithmetic::power2::{lemma_pow2_pos, lemma_pow2_strictly_increases, lemma_pow2_unfold, pow2};
use vstd::prelude::*;

verus! {

/// Number of columns of a trace row.
pub const NUM_MOVEMENT_COLS: usize = 8;

/// `n` is `2^k` for some natural `k`.
pub open spec fn is_power_of_two(n: int) -> bool {
    exists|k: nat| n == #[trigger] pow2(k)
}

/// The least power of two that is at least `n`.
pub open spec fn least_power_of_two(n: int, p: int) -> bool {
    &&& is_power_of_two(p)
    &&& n <= p
    &&& forall|q: int| is_power_of_two(q) && n <= q ==> p <= q
}

proof fn lemma_pow2_monotone(a: nat, b: nat)
    requires
        a <= b,
    ensures
        pow2(a) <= pow2(b),
{
    if a < b {
        lemma_pow2_strictly_increases(a, b);
    }
}

/// The largest power of two that a `usize` holds is `usize::MAX / 2 + 1`.
proof fn lemma_top_power()
    ensures
        usize::MAX / 2 + 1 == pow2((usize::BITS - 1) as nat),
{
    vstd::layout::unsigned_int_max_values();
    lemma_pow2_unfold(usize::BITS as nat);
}

/// Smallest power of two that is not below `n`; `1` for `n == 0`.
pub fn next_power_of_2(n: usize) -> (power: usize)
    requires
        n <= usize::MAX / 2 + 1,
    ensures
        least_power_of_two(n as int, power as int),
{
    if n == 0 {
        proof {
            lemma_least_is_one(n as int);
        }
        return 1;
    }
    let mut power: usize = 1;
    let ghost mut k: nat = 0;
    proof {
        vstd::arithmetic::power2::lemma2_to64();
    }
    while power < n
        invariant
            n <= usize::MAX / 2 + 1,
            power == pow2(k),
            k == 0 || pow2((k - 1) as nat) < n,
        decreases usize::MAX - power,
    {
        proof {
            lemma_top_power();
            if k >= usize::BITS - 1 {
                lemma_pow2_monotone((usize::BITS - 1) as nat, k);
            }
            lemma_pow2_unfold(k + 1);
            lemma_pow2_monotone(k + 1, (usize::BITS - 1) as nat);
            lemma_pow2_pos(k);
        }
        power = power * 2;
        proof {
            k = k + 1;
        }
    }
    proof {
        assert forall|q: int| is_power_of_two(q) && n <= q implies power <= q by {
            let j = choose|j: nat| q == pow2(j);
            if j < k {
                lemma_pow2_monotone(j, (k - 1) as nat);
            } else {
                lemma_pow2_monotone(k, j);
            }
        }
    }
    power
}

proof fn lemma_least_is_one(n: int)
    requires
        n <= 1,
    ensures
        least_power_of_two(n, 1),
{
    vstd::arithmetic::power2::lemma2_to64();
    assert(1 == pow2(0));
    assert forall|q: int| is_power_of_two(q) implies 1 <= q by {
        let j = choose|j: nat| q == pow2(j);
        lemma_pow2_pos(j);
    }
}

/// Fewest rows of a trace matrix.
pub const MIN_TRACE_HEIGHT: usize = 8;

/// The movement constraint system. It has no parameters: speed, bias and
/// physics factor are fixed.
#[derive(Clone, Copy, Debug)]
pub struct MovementAir;

impl MovementAir {
    /// The constraint system.
    pub fn new() -> (air: Self) {
        MovementAir
    }

    /// Number of columns that the constraints read.
    pub fn width(&self) -> (width: usize)
        ensures
            width == NUM_MOVEMENT_COLS,
    {
        NUM_MOVEMENT_COLS
    }
}

/// One row of the trace, in column order.
#[derive(Debug)]
pub struct MovementRow<F> {
    pub position_x: F,
    pub position_y: F,
    pub velocity_x: F,
    pub velocity_y: F,
    pub input_left: F,
    pub input_right: F,
    pub input_up: F,
    pub input_down: F,
}

/// Why a window has no trace.
#[derive(Clone, Copy, Debug, PartialEq, Eq, Structural)]
pub enum ArithmetizeError {
    /// The first window after a reset does not begin at the origin at rest.
    StructuralViolation,
    /// The sample at this index holds a value outside the encoding bound.
    EncodingOverflow { step: usize },
    /// The window holds more samples than the tallest trace has rows.
    WindowTooLong,
}

/// The cells of a row, in column order.
pub open spec fn row_cells(row: MovementRow<u64>) -> Seq<u64> {
    seq![
        row.position_x,
        row.position_y,
        row.velocity_x,
        row.velocity_y,
        row.input_left,
        row.input_right,
        row.input_up,
        row.input_down,
    ]
}

/// The row that eight cells make.
pub open spec fn row_of_cells(cells: Seq<u64>) -> MovementRow<u64>
    recommends
        cells.len() == NUM_MOVEMENT_COLS,
{
    MovementRow {
        position_x: cells[0],
        position_y: cells[1],
        velocity_x: cells[2],
        velocity_y: cells[3],
        input_left: cells[4],
        input_right: cells[5],
        input_up: cells[6],
        input_down: cells[7],
    }
}

/// The rows one after another, cell by cell.
pub open spec fn flatten_rows(rows: Seq<MovementRow<u64>>) -> Seq<u64> {
    Seq::new(
        rows.len() * NUM_MOVEMENT_COLS as nat,
        |k: int| row_cells(rows[k / NUM_MOVEMENT_COLS as int])[k % NUM_MOVEMENT_COLS as int],
    )
}

/// Every value of the sample lies within its encoding bound.
pub open spec fn step_encodable(step: MovementStep) -> bool {
    &&& position_in_bound(step.position.x as int)
    &&& position_in_bound(step.position.y as int)
    &&& velocity_in_bound(step.velocity.x as int)
    &&& velocity_in_bound(step.velocity.y as int)
}

/// The row of an encodable sample.
pub open spec fn encode_step_spec(step: MovementStep) -> MovementRow<u64> {
    MovementRow {
        position_x: encode_position_spec(step.position.x as int) as u64,
        position_y: encode_position_spec(step.position.y as int) as u64,
        velocity_x: encode_velocity_spec(step.velocity.x as int) as u64,
        velocity_y: encode_velocity_spec(step.velocity.y as int) as u64,
        input_left: encode_flag_spec(step.inputs.left) as u64,
        input_right: encode_flag_spec(step.inputs.right) as u64,
        input_up: encode_flag_spec(step.inputs.up) as u64,
        input_down: encode_flag_spec(step.inputs.down) as u64,
    }
}

/// The row that pads a trace after `last`: the same position, at rest, no
/// flag set.
pub open spec fn padding_row(last: MovementRow<u64>) -> MovementRow<u64> {
    MovementRow {
        position_x: last.position_x,
        position_y: last.position_y,
        velocity_x: VELOCITY_BIAS as u64,
        velocity_y: VELOCITY_BIAS as u64,
        input_left: 0,
        input_right: 0,
        input_up: 0,
        input_down: 0,
    }
}

/// The row of zeros.
pub open spec fn zero_row() -> MovementRow<u64> {
    MovementRow {
        position_x: 0,
        position_y: 0,
        velocity_x: 0,
        velocity_y: 0,
        input_left: 0,
        input_right: 0,
        input_up: 0,
        input_down: 0,
    }
}

/// Row `r` of the trace of `steps`: the sample's row, then padding after the
/// last sample; zeros where there is no sample at all.
pub open spec fn window_row(steps: Seq<MovementStep>, r: int) -> MovementRow<u64> {
    if r < steps.len() {
        encode_step_spec(steps[r])
    } else if steps.len() > 0 {
        padding_row(encode_step_spec(steps.last()))
    } else {
        zero_row()
    }
}

/// The `height` rows of the trace of `steps`.
pub open spec fn window_rows(steps: Seq<MovementStep>, height: nat) -> Seq<MovementRow<u64>> {
    Seq::new(height, |r: int| window_row(steps, r))
}

/// The window is marked as the first after a reset, yet its first sample is
/// not the origin at rest.
pub open spec fn structural_violation(steps: Seq<MovementStep>, is_first_trace_after_reset: bool) -> bool {
    &&& is_first_trace_after_reset
    &&& steps.len() > 0
    &&& !(steps[0].position == Position::origin() && steps[0].velocity == Velocity::zero())
}

/// `i` is the first sample that cannot be encoded.
pub open spec fn first_overflow(steps: Seq<MovementStep>, i: int) -> bool {
    &&& 0 <= i < steps.len()
    &&& !step_encodable(steps[i])
    &&& forall|j: int| 0 <= j < i ==> step_encodable(#[trigger] steps[j])
}

/// Every sample can be encoded.
pub open spec fn all_encodable(steps: Seq<MovementStep>) -> bool {
    forall|j: int| 0 <= j < steps.len() ==> step_encodable(#[trigger] steps[j])
}

/// What arithmetization gives for a window: the cells of its trace, or why
/// it has none. The length is examined first, then the reset precondition,
/// then the samples in their order.
pub open spec fn arithmetize_spec(
    steps: Seq<MovementStep>,
    is_first_trace_after_reset: bool,
    height: nat,
    result: Result<Seq<u64>, ArithmetizeError>,
) -> bool {
    match result {
        Ok(cells) => {
            &&& steps.len() <= height
            &&& !structural_violation(steps, is_first_trace_after_reset)
            &&& all_encodable(steps)
            &&& cells == flatten_rows(window_rows(steps, height))
        },
        Err(ArithmetizeError::WindowTooLong) => steps.len() > height,
        Err(ArithmetizeError::StructuralViolation) => {
            &&& steps.len() <= height
            &&& structural_violation(steps, is_first_trace_after_reset)
        },
        Err(ArithmetizeError::EncodingOverflow { step }) => {
            &&& steps.len() <= height
            &&& !structural_violation(steps, is_first_trace_after_reset)
            &&& first_overflow(steps, step as int)
        },
    }
}

/// Encodes one sample, or `None` where a value lies outside its bound.
pub fn encode_step(step: &MovementStep) -> (row: Option<MovementRow<u64>>)
    ensures
        step_encodable(*step) ==> row == Some(encode_step_spec(*step)),
        !step_encodable(*step) ==> row is None,
{
    let position_x = encode_position(step.position.x);
    let position_y = encode_position(step.position.y);
    let velocity_x = encode_velocity(step.velocity.x);
    let velocity_y = encode_velocity(step.velocity.y);
    match (position_x, position_y, velocity_x, velocity_y) {
        (Some(position_x), Some(position_y), Some(velocity_x), Some(velocity_y)) => Some(
            MovementRow {
                position_x,
                position_y,
                velocity_x,
                velocity_y,
                input_left: encode_flag(step.inputs.left),
                input_right: encode_flag(step.inputs.right),
                input_up: encode_flag(step.inputs.up),
                input_down: encode_flag(step.inputs.down),
            },
        ),
        _ => None,
    }
}

fn push_row(cells: &mut Vec<u64>, row: &MovementRow<u64>)
    ensures
        final(cells)@ == old(cells)@ + row_cells(*row),
{
    cells.push(row.position_x);
    cells.push(row.position_y);
    cells.push(row.velocity_x);
    cells.push(row.velocity_y);
    cells.push(row.input_left);
    cells.push(row.input_right);
    cells.push(row.input_up);
    cells.push(row.input_down);
    assert(cells@ =~= old(cells)@ + row_cells(*row));
}

proof fn lemma_flatten_push(rows: Seq<MovementRow<u64>>, row: MovementRow<u64>)
    ensures
        flatten_rows(rows.push(row)) == flatten_rows(rows) + row_cells(row),
{
    assert(flatten_rows(rows.push(row)) =~= flatten_rows(rows) + row_cells(row));
}

/// The cells of the trace of a window, row by row: `target_height` rows of
/// eight cells. A window with more samples than rows has no trace.
pub fn encode_window(trace: &MovementTrace, target_height: usize) -> (result: Result<Vec<u64>, ArithmetizeError>)
    requires
        target_height * NUM_MOVEMENT_COLS <= usize::MAX,
    ensures
        arithmetize_spec(
            trace@.steps,
            trace@.is_first_trace_after_reset,
            target_height as nat,
            match result {
                Ok(cells) => Ok(cells@),
                Err(e) => Err(e),
            },
        ),
{
    let len = trace.steps.len();
    if len > target_height {
        return Err(ArithmetizeError::WindowTooLong);
    }
    if trace.is_first_trace_after_reset && len > 0 {
        let first = &trace.steps[0];
        if first.position.x != 0 || first.position.y != 0 || first.velocity.x != 0 || first.velocity.y != 0 {
            return Err(ArithmetizeError::StructuralViolation);
        }
    }
    let ghost rows = window_rows(trace@.steps, target_height as nat);
    let mut cells: Vec<u64> = Vec::new();
    let mut padding = MovementRow {
        position_x: 0,
        position_y: 0,
        velocity_x: 0,
        velocity_y: 0,
        input_left: 0,
        input_right: 0,
        input_up: 0,
        input_down: 0,
    };
    let mut i: usize = 0;
    proof {
        assert(cells@ =~= flatten_rows(rows.take(0)));
    }
    while i < len
        invariant
            i <= len,
            len == trace.steps@.len(),
            len <= target_height,
            !structural_violation(trace@.steps, trace@.is_first_trace_after_reset),
            rows == window_rows(trace@.steps, target_height as nat),
            cells@ == flatten_rows(rows.take(i as int)),
            forall|j: int| 0 <= j < i ==> step_encodable(#[trigger] trace@.steps[j]),
            i > 0 ==> padding == padding_row(encode_step_spec(trace@.steps[i - 1])),
            i == 0 ==> padding == zero_row(),
        decreases len - i,
    {
        match encode_step(&trace.steps[i]) {
            Some(row) => {
                proof {
                    lemma_flatten_push(rows.take(i as int), row);
                    assert(rows.take(i as int).push(row) =~= rows.take(i + 1));
                }
                push_row(&mut cells, &row);
                padding =
                MovementRow {
                    position_x: row.position_x,
                    position_y: row.position_y,
                    velocity_x: VELOCITY_BIAS as u64,
                    velocity_y: VELOCITY_BIAS as u64,
                    input_left: 0,
                    input_right: 0,
                    input_up: 0,
                    input_down: 0,
                };
            },
            None => {
                return Err(ArithmetizeError::EncodingOverflow { step: i });
            },
        }
        i += 1;
    }
    while i < target_height
        invariant
            len <= i <= target_height,
            len == trace.steps@.len(),
            !structural_violation(trace@.steps, trace@.is_first_trace_after_reset),
            all_encodable(trace@.steps),
            rows == window_rows(trace@.steps, target_height as nat),
            cells@ == flatten_rows(rows.take(i as int)),
            padding == window_row(trace@.steps, len as int),
        decreases target_height - i,
    {
        proof {
            lemma_flatten_push(rows.take(i as int), padding);
            assert(rows.take(i as int).push(padding) =~= rows.take(i + 1));
        }
        push_row(&mut cells, &padding);
        i += 1;
    }
    proof {
        assert(rows.take(target_height as int) =~= rows);
    }
    Ok(cells)
}

/// Every cell of a trace is a canonical field element.
pub proof fn lemma_window_cells_canonical(steps: Seq<MovementStep>, height: nat)
    requires
        all_encodable(steps),
    ensures
        forall|k: int|
            0 <= k < flatten_rows(window_rows(steps, height)).len() ==> reduce(
                (#[trigger] flatten_rows(window_rows(steps, height))[k]) as int,
            ) == flatten_rows(window_rows(steps, height))[k],
{
    let rows = window_rows(steps, height);
    assert forall|k: int| 0 <= k < flatten_rows(rows).len() implies reduce((#[trigger] flatten_rows(rows)[k]) as int)
        == flatten_rows(rows)[k] by {
        let r = k / NUM_MOVEMENT_COLS as int;
        if r < steps.len() {
            assert(step_encodable(steps[r]));
        } else if steps.len() > 0 {
            assert(step_encodable(steps.last()));
        }
    }
}

/// What trace generation gives for a window: the matrix of its trace, eight
/// columns wide and `height` rows high, or why it has none.
pub open spec fn trace_matrix_spec(
    steps: Seq<MovementStep>,
    is_first_trace_after_reset: bool,
    height: nat,
    result: Result<TraceMatrix, ArithmetizeError>,
) -> bool {
    &&& arithmetize_spec(
        steps,
        is_first_trace_after_reset,
        height,
        match result {
            Ok(matrix) => Ok(matrix_cells(matrix)),
            Err(e) => Err(e),
        },
    )
    &&& result matches Ok(matrix) ==> matrix_width(matrix) == NUM_MOVEMENT_COLS && matrix_height(matrix) == height
}

/// The trace matrix of a window, `target_height` rows high: one row per
/// sample, then padding rows that hold the last position at rest.
///
/// A window marked as the first after a reset must begin at the origin at
/// rest, and every value must lie within its encoding bound.
pub fn generate_movement_trace_matrix(trace: &MovementTrace, target_height: usize) -> (result: Result<
    TraceMatrix,
    ArithmetizeError,
>)
    requires
        is_power_of_two(target_height as int),
        trace@.steps.len() <= target_height,
        target_height * NUM_MOVEMENT_COLS <= usize::MAX,
    ensures
        trace_matrix_spec(trace@.steps, trace@.is_first_trace_after_reset, target_height as nat, result),
{
    match encode_window(trace, target_height) {
        Ok(cells) => {
            proof {
                lemma_window_cells_canonical(trace@.steps, target_height as nat);
            }
            let matrix = matrix_from_cells(cells, NUM_MOVEMENT_COLS);
            assert(matrix_cells(matrix) =~= cells@);
            Ok(matrix)
        },
        Err(e) => Err(e),
    }
}

/// The velocity cell of the rows of [`generate_cheat_detected_matrix`]:
/// no flags account for it.
pub const INVALID_VELOCITY_CELL: u64 = 9999;

/// A row at the origin whose velocities no flags account for.
pub open spec fn cheat_detected_row() -> MovementRow<u64> {
    MovementRow {
        position_x: encode_position_spec(0) as u64,
        position_y: encode_position_spec(0) as u64,
        velocity_x: INVALID_VELOCITY_CELL,
        velocity_y: INVALID_VELOCITY_CELL,
        input_left: 0,
        input_right: 0,
        input_up: 0,
        input_down: 0,
    }
}

/// A matrix of `target_height` rows that the constraint system refuses:
/// every row stands at the origin with velocities that no flags account
/// for.
pub fn generate_cheat_detected_matrix(target_height: usize) -> (matrix: TraceMatrix)
    requires
        target_height * NUM_MOVEMENT_COLS <= usize::MAX,
    ensures
        matrix_width(matrix) == NUM_MOVEMENT_COLS,
        matrix_height(matrix) == target_height,
        matrix_cells(matrix) == flatten_rows(Seq::new(target_height as nat, |r: int| cheat_detected_row())),
{
    let ghost rows = Seq::new(target_height as nat, |r: int| cheat_detected_row());
    let row = MovementRow {
        position_x: 50_000_000,
        position_y: 50_000_000,
        velocity_x: INVALID_VELOCITY_CELL,
        velocity_y: INVALID_VELOCITY_CELL,
        input_left: 0,
        input_right: 0,
        input_up: 0,
        input_down: 0,
    };
    let mut cells: Vec<u64> = Vec::new();
    let mut i: usize = 0;
    proof {
        assert(cells@ =~= flatten_rows(rows.take(0)));
    }
    while i < target_height
        invariant
            i <= target_height,
            row == cheat_detected_row(),
            rows == Seq::new(target_height as nat, |r: int| cheat_detected_row()),
            cells@ == flatten_rows(rows.take(i as int)),
        decreases target_height - i,
    {
        proof {
            lemma_flatten_push(rows.take(i as int), row);
            assert(rows.take(i as int).push(row) =~= rows.take(i + 1));
        }
        push_row(&mut cells, &row);
        i += 1;
    }
    proof {
        assert(rows.take(target_height as int) =~= rows);
    }
    let matrix = matrix_from_cells(cells, NUM_MOVEMENT_COLS);
    assert(matrix_cells(matrix) =~= cells@);
    matrix
}

/// Most rows of a trace matrix, and so the longest window that has one.
pub const MAX_TRACE_HEIGHT: usize = 0x0800_0000;

/// The height of the trace of a window of `len` samples: the least power of
/// two that is at least `len` and at least [`MIN_TRACE_HEIGHT`].
pub open spec fn trace_height(len: nat, height: nat) -> bool {
    least_power_of_two(
        if len > MIN_TRACE_HEIGHT {
            len as int
        } else {
            MIN_TRACE_HEIGHT as int
        },
        height as int,
    )
}

/// What [`arithmetize`] gives for a window: the matrix of its trace at the
/// height that its length calls for, or why it has none.
pub open spec fn arithmetized(trace: TraceView, result: Result<TraceMatrix, ArithmetizeError>) -> bool {
    if trace.steps.len() > MAX_TRACE_HEIGHT {
        result == Err::<TraceMatrix, ArithmetizeError>(ArithmetizeError::WindowTooLong)
    } else {
        exists|height: nat| #[trigger]
            trace_height(trace.steps.len(), height) && trace_matrix_spec(
                trace.steps,
                trace.is_first_trace_after_reset,
                height,
                result,
            )
    }
}

/// The trace matrix of a window at the height that its length calls for.
pub fn arithmetize(trace: &MovementTrace) -> (result: Result<TraceMatrix, ArithmetizeError>)
    ensures
        arithmetized(trace@, result),
{
    let len = trace.steps.len();
    if len > MAX_TRACE_HEIGHT {
        return Err(ArithmetizeError::WindowTooLong);
    }
    let floor = if len > MIN_TRACE_HEIGHT {
        len
    } else {
        MIN_TRACE_HEIGHT
    };
    let target_height = next_power_of_2(floor);
    proof {
        vstd::arithmetic::power2::lemma2_to64();
        assert(is_power_of_two(0x0800_0000)) by {
            assert(0x0800_0000 == pow2(27));
        }
        assert(trace_height(trace@.steps.len(), target_height as nat));
    }
    generate_movement_trace_matrix(trace, target_height)
}

/// One constraint of the system, in the order in which a row is examined.
#[derive(Clone, Copy, Debug, PartialEq, Eq, Structural)]
pub enum Constraint {
    /// The left flag is 0 or 1.
    BooleanLeft,
    /// The right flag is 0 or 1.
    BooleanRight,
    /// The up flag is 0 or 1.
    BooleanUp,
    /// The down flag is 0 or 1.
    BooleanDown,
    /// The horizontal velocity is what the row's flags account for.
    VelocityX,
    /// The vertical velocity is what the row's flags account for.
    VelocityY,
    /// The next horizontal position follows from this one and the next velocity.
    PositionX,
    /// The next vertical position follows from this one and the next velocity.
    PositionY,
}

/// The cell is 0 or 1.
pub open spec fn is_boolean(cell: u64) -> bool {
    cell == 0 || cell == 1
}

/// The velocity cell that two opposite flags account for, computed in the
/// field: their difference times the speed, plus the bias.
pub open spec fn expected_velocity_cell(positive: u64, negative: u64) -> int {
    field_add(field_mul(field_sub(positive as int, negative as int), MOVEMENT_SPEED as int), VELOCITY_BIAS as int)
}

/// The position cell that follows `position` when the next row has the
/// velocity cell `next_velocity`, computed in the field: the position plus
/// the unbiased velocity times the physics factor.
pub open spec fn expected_position_cell(position: u64, next_velocity: u64) -> int {
    field_add(
        position as int,
        field_mul(field_sub(next_velocity as int, VELOCITY_BIAS as int), PHYSICS_FACTOR as int),
    )
}

/// The first constraint on a single row that `local` breaks.
pub open spec fn row_violation(local: MovementRow<u64>) -> Option<Constraint> {
    if !is_boolean(local.input_left) {
        Some(Constraint::BooleanLeft)
    } else if !is_boolean(local.input_right) {
        Some(Constraint::BooleanRight)
    } else if !is_boolean(local.input_up) {
        Some(Constraint::BooleanUp)
    } else if !is_boolean(local.input_down) {
        Some(Constraint::BooleanDown)
    } else if local.velocity_x != expected_velocity_cell(local.input_right, local.input_left) {
        Some(Constraint::VelocityX)
    } else if local.velocity_y != expected_velocity_cell(local.input_up, local.input_down) {
        Some(Constraint::VelocityY)
    } else {
        None
    }
}

/// The first constraint on two adjacent rows that `local` and `next` break.
pub open spec fn transition_violation(local: MovementRow<u64>, next: MovementRow<u64>) -> Option<Constraint> {
    if next.position_x != expected_position_cell(local.position_x, next.velocity_x) {
        Some(Constraint::PositionX)
    } else if next.position_y != expected_position_cell(local.position_y, next.velocity_y) {
        Some(Constraint::PositionY)
    } else {
        None
    }
}

/// The first constraint broken at row `r`: those on the row itself, then,
/// unless the row is the last, those on its transition to the next row.
pub open spec fn violation_at(rows: Seq<MovementRow<u64>>, r: int) -> Option<Constraint> {
    if row_violation(rows[r]) is Some {
        row_violation(rows[r])
    } else if r + 1 < rows.len() {
        transition_violation(rows[r], rows[r + 1])
    } else {
        None
    }
}

impl MovementAir {
    /// Every row meets the constraints, and every pair of adjacent rows
    /// the transition constraints; the last row has no successor.
    pub open spec fn satisfied_by(self, rows: Seq<MovementRow<u64>>) -> bool {
        forall|r: int| 0 <= r < rows.len() ==> (#[trigger] violation_at(rows, r)) is None
    }
}

/// Moving from `from` to `to` in one tick is what the velocity `v` of the
/// arrival gives: in thousandths of a position unit, `v` times the physics
/// factor on each axis.
pub open spec fn moves_by(from: Position, to: Position, v: Velocity) -> bool {
    &&& to.x * POSITION_FACTOR == from.x * POSITION_FACTOR + v.x * PHYSICS_FACTOR
    &&& to.y * POSITION_FACTOR == from.y * POSITION_FACTOR + v.y * PHYSICS_FACTOR
}

/// The samples evolve by the rules of the simulation: each velocity is the
/// one that the flags of the same tick account for, and each position
/// follows from the one before by the velocity of the arrival.
pub open spec fn follows_rules(steps: Seq<MovementStep>) -> bool {
    &&& forall|i: int|
        0 <= i < steps.len() ==> (#[trigger] steps[i]).velocity == expected_velocity_spec(steps[i].inputs)
    &&& forall|i: int|
        0 <= i < steps.len() - 1 ==> moves_by(steps[i].position, (#[trigger] steps[i + 1]).position, steps[i + 1].velocity)
}

/// The row of an encodable sample meets the row constraints exactly when
/// the sample's velocity is the one that its own flags account for.
pub proof fn lemma_row_constraints_mean_velocity(step: MovementStep)
    requires
        step_encodable(step),
    ensures
        row_violation(encode_step_spec(step)) is None <==> step.velocity == expected_velocity_spec(step.inputs),
{
}

/// The rows of two encodable samples meet the transition constraints
/// exactly when the move between them is the one that the second velocity
/// gives.
pub proof fn lemma_transition_constraints_mean_move(from: MovementStep, to: MovementStep)
    requires
        step_encodable(from),
        step_encodable(to),
    ensures
        transition_violation(encode_step_spec(from), encode_step_spec(to)) is None <==> moves_by(
            from.position,
            to.position,
            to.velocity,
        ),
{
    let a = encode_step_spec(from);
    let b = encode_step_spec(to);
    lemma_expected_position(a.position_x, b.velocity_x, b.position_x);
    lemma_expected_position(a.position_y, b.velocity_y, b.position_y);
}

/// On encoded cells the transition constraint, computed in the field, says
/// what it says over the integers.
proof fn lemma_expected_position(position: u64, next_velocity: u64, next_position: u64)
    requires
        0 < position < 100_000_000,
        0 < next_position < 100_000_000,
        0 <= next_velocity < 2000,
    ensures
        next_position == expected_position_cell(position, next_velocity) <==> next_position == position + (
        next_velocity - 1000) * 15,
{
    let d = next_velocity - 1000;
    let unbiased = field_sub(next_velocity as int, 1000);
    assert(unbiased == if d < 0 {
        d + 2013265921
    } else {
        d
    });
    let delta = field_mul(unbiased, 15);
    assert(delta == if d < 0 {
        15 * d + 2013265921
    } else {
        15 * d
    });
    let expected = field_add(position as int, delta);
    assert(expected == if position + 15 * d < 0 {
        position + 15 * d + 2013265921
    } else {
        position + 15 * d
    });
}

/// Padding breaks no constraint: not on its own rows, not after the last
/// sample, not between two padding rows.
pub proof fn lemma_padding_meets_constraints(step: MovementStep)
    requires
        step_encodable(step),
    ensures
        row_violation(padding_row(encode_step_spec(step))) is None,
        transition_violation(encode_step_spec(step), padding_row(encode_step_spec(step))) is None,
        transition_violation(padding_row(encode_step_spec(step)), padding_row(encode_step_spec(step))) is None,
{
}

/// The trace of a window satisfies the constraint system exactly when the
/// window's samples evolve by the rules of the simulation. So a trace of
/// honest play is always accepted, and one that holds a position or a
/// velocity which the rules do not give is always refused.
pub proof fn lemma_constraints_characterise_rules(air: MovementAir, steps: Seq<MovementStep>, height: nat)
    requires
        all_encodable(steps),
        0 < steps.len() <= height,
    ensures
        air.satisfied_by(window_rows(steps, height)) <==> follows_rules(steps),
{
    let rows = window_rows(steps, height);
    let len = steps.len() as int;
    assert forall|i: int| 0 <= i < len implies row_violation(rows[i]) is None <==> (#[trigger] steps[i]).velocity
        == expected_velocity_spec(steps[i].inputs) by {
        lemma_row_constraints_mean_velocity(steps[i]);
    }
    assert forall|i: int| 0 <= i < len - 1 implies transition_violation(rows[i], rows[i + 1]) is None <==> moves_by(
        steps[i].position,
        (#[trigger] steps[i + 1]).position,
        steps[i + 1].velocity,
    ) by {
        lemma_transition_constraints_mean_move(steps[i], steps[i + 1]);
    }
    lemma_padding_meets_constraints(steps.last());
    if follows_rules(steps) {
        assert forall|r: int| 0 <= r < rows.len() implies (#[trigger] violation_at(rows, r)) is None by {
            if r < len - 1 {
                assert(steps[r + 1].velocity == expected_velocity_spec(steps[r + 1].inputs));
            }
        }
    }
    if air.satisfied_by(rows) {
        assert forall|i: int| 0 <= i < len implies (#[trigger] steps[i]).velocity == expected_velocity_spec(
            steps[i].inputs,
        ) by {
            assert(violation_at(rows, i) is None);
        }
        assert forall|i: int| 0 <= i < len - 1 implies moves_by(
            steps[i].position,
            (#[trigger] steps[i + 1]).position,
            steps[i + 1].velocity,
        ) by {
            assert(violation_at(rows, i) is None);
        }
    }
}

/// The velocity that the constraints allow in a row is a function of the
/// flags of that row and of nothing else: two rows that meet the row
/// constraints with the same flags, wherever they stand, hold the same
/// velocities.
pub proof fn lemma_velocity_depends_on_flags_only(a: MovementRow<u64>, b: MovementRow<u64>)
    requires
        row_violation(a) is None,
        row_violation(b) is None,
        a.input_left == b.input_left,
        a.input_right == b.input_right,
        a.input_up == b.input_up,
        a.input_down == b.input_down,
    ensures
        a.velocity_x == b.velocity_x,
        a.velocity_y == b.velocity_y,
{
}

/// The constraint system refuses every row of a cheat-detected matrix.
pub proof fn lemma_cheat_detected_row_is_refused()
    ensures
        row_violation(cheat_detected_row()) == Some(Constraint::VelocityX),
{
}

/// A window marked as the first after a reset has a trace only where it
/// begins at the origin at rest.
pub proof fn lemma_reset_window_begins_at_origin(steps: Seq<MovementStep>, height: nat, cells: Seq<u64>)
    requires
        steps.len() > 0,
        arithmetize_spec(steps, true, height, Ok(cells)),
    ensures
        steps[0].position == Position::origin(),
        steps[0].velocity == Velocity::zero(),
{
}

/// A tick of honest play follows the rules: with the velocity that the
/// held keys give, the flags that took effect account for that velocity,
/// and the player's move is the one that the velocity gives.
pub proof fn lemma_honest_tick_follows_rules(from: Position, left: bool, right: bool, up: bool, down: bool)
    ensures
        ({
            let velocity = velocity_for_keys_spec(left, right, up, down);
            let inputs = InputFlags::of(effective_inputs_spec(left, right, up, down));
            let to = advance_spec(from, velocity);
            &&& velocity == expected_velocity_spec(inputs)
            &&& to.0 * POSITION_FACTOR == from.x * POSITION_FACTOR + velocity.x * PHYSICS_FACTOR
            &&& to.1 * POSITION_FACTOR == from.y * POSITION_FACTOR + velocity.y * PHYSICS_FACTOR
        }),
{
}

/// Every buffered window of the collector evolves by the rules, and the
/// window being filled ends with the sample recorded last.
spec fn windows_follow_rules(c: CollectorView, samples: Seq<MovementStep>) -> bool {
    &&& forall|i: int| 0 <= i < c.windows().len() ==> follows_rules((#[trigger] c.windows()[i]).steps)
    &&& c.current matches Some(trace) ==> trace.steps.len() > 0 && samples.len() > 0 && trace.steps.last()
        == samples.last()
}

proof fn lemma_add_keeps_windows_following(c: CollectorView, samples: Seq<MovementStep>, step: MovementStep)
    requires
        windows_follow_rules(c, samples),
        follows_rules(samples.push(step)),
    ensures
        windows_follow_rules(c.add(step), samples.push(step)),
{
    let after = c.add(step);
    let stream = samples.push(step);
    assert(stream[stream.len() - 1] == step);
    assert(step.velocity == expected_velocity_spec(step.inputs));
    let begun = if c.current is None {
        c.started(step.timestamp)
    } else {
        c
    };
    let open = begun.current.unwrap();
    let grown = open.with_step(step);
    assert(follows_rules(grown.steps)) by {
        if c.current is Some {
            assert(c.windows()[c.windows().len() - 1] == open);
            assert(follows_rules(open.steps));
            let at = stream.len() - 2;
            assert(stream[at] == samples.last());
            assert(moves_by(stream[at].position, stream[at + 1].position, stream[at + 1].velocity));
            assert forall|i: int| 0 <= i < grown.steps.len() implies (#[trigger] grown.steps[i]).velocity
                == expected_velocity_spec(grown.steps[i].inputs) by {
                if i < open.steps.len() {
                    assert(grown.steps[i] == open.steps[i]);
                }
            }
            assert forall|i: int| 0 <= i < grown.steps.len() - 1 implies moves_by(
                grown.steps[i].position,
                (#[trigger] grown.steps[i + 1]).position,
                grown.steps[i + 1].velocity,
            ) by {
                if i + 1 < open.steps.len() {
                    assert(grown.steps[i] == open.steps[i]);
                    assert(grown.steps[i + 1] == open.steps[i + 1]);
                }
            }
        }
    }
    let seed = TraceView::seeded(step, begun.reset_marked);
    assert(seed.steps =~= seq![step]);
    assert(follows_rules(seed.steps));
    if grown.is_complete(c.trace_duration) {
        let pushed = c.completed.push(grown);
        let queue = keep_last(pushed, c.max_completed_traces as nat);
        assert(after.windows() =~= queue.push(seed));
        let skip = pushed.len() - queue.len();
        assert forall|i: int| 0 <= i < after.windows().len() implies follows_rules(
            (#[trigger] after.windows()[i]).steps,
        ) by {
            if i < queue.len() {
                assert(queue[i] == pushed[i + skip]);
                if i + skip < c.completed.len() {
                    assert(c.windows()[i + skip] == c.completed[i + skip]);
                }
            }
        }
    } else {
        assert(after.windows() =~= c.completed.push(grown));
        assert forall|i: int| 0 <= i < after.windows().len() implies follows_rules(
            (#[trigger] after.windows()[i]).steps,
        ) by {
            if i < c.completed.len() {
                assert(c.windows()[i] == c.completed[i]);
            }
        }
    }
}

/// Honest play is never refused for the way its windows are cut: where
/// the samples recorded evolve by the rules, whatever else is called on the
/// collector in between, every window it holds evolves by the rules, and
/// so, by [`lemma_constraints_characterise_rules`], its trace satisfies the
/// constraint system.
pub proof fn lemma_windows_of_honest_play_follow_rules(
    trace_duration: u64,
    max_completed_traces: usize,
    ops: Seq<CollectorOp>,
)
    requires
        follows_rules(recorded_samples(ops)),
    ensures
        forall|i: int|
            0 <= i < CollectorView::fresh(trace_duration, max_completed_traces).apply_all(ops).windows().len()
                ==> follows_rules(
                (#[trigger] CollectorView::fresh(trace_duration, max_completed_traces).apply_all(
                    ops,
                ).windows()[i]).steps,
            ),
{
    lemma_honest_windows(trace_duration, max_completed_traces, ops);
}

/// Honest play is accepted: where the samples recorded evolve by the rules
/// and lie within the encoding bounds, the trace of every window that the
/// collector holds satisfies the constraint system, at every height that
/// has room for the window.
pub proof fn lemma_honest_play_is_accepted(
    air: MovementAir,
    trace_duration: u64,
    max_completed_traces: usize,
    ops: Seq<CollectorOp>,
    i: int,
    height: nat,
)
    requires
        follows_rules(recorded_samples(ops)),
        0 <= i < CollectorView::fresh(trace_duration, max_completed_traces).apply_all(ops).windows().len(),
        all_encodable(CollectorView::fresh(trace_duration, max_completed_traces).apply_all(ops).windows()[i].steps),
        0 < CollectorView::fresh(trace_duration, max_completed_traces).apply_all(ops).windows()[i].steps.len()
            <= height,
    ensures
        air.satisfied_by(
            window_rows(
                CollectorView::fresh(trace_duration, max_completed_traces).apply_all(ops).windows()[i].steps,
                height,
            ),
        ),
{
    let window = CollectorView::fresh(trace_duration, max_completed_traces).apply_all(ops).windows()[i];
    lemma_windows_of_honest_play_follow_rules(trace_duration, max_completed_traces, ops);
    lemma_constraints_characterise_rules(air, window.steps, height);
}

proof fn lemma_honest_windows(trace_duration: u64, max_completed_traces: usize, ops: Seq<CollectorOp>)
    requires
        follows_rules(recorded_samples(ops)),
    ensures
        windows_follow_rules(
            CollectorView::fresh(trace_duration, max_completed_traces).apply_all(ops),
            recorded_samples(ops),
        ),
    decreases ops.len(),
{
    let start = CollectorView::fresh(trace_duration, max_completed_traces);
    if ops.len() == 0 {
        assert(start.windows() =~= Seq::empty());
    } else {
        let earlier = ops.drop_last();
        let samples = recorded_samples(earlier);
        let before = start.apply_all(earlier);
        match ops.last() {
            CollectorOp::Add(step) => {
                lemma_rules_hold_of_prefix(samples, step);
                lemma_honest_windows(trace_duration, max_completed_traces, earlier);
                lemma_add_keeps_windows_following(before, samples, step);
            },
            CollectorOp::Pop => {
                lemma_honest_windows(trace_duration, max_completed_traces, earlier);
                let after = before.popped();
                if before.completed.len() > 0 {
                    assert(after.windows() =~= before.windows().drop_first());
                    assert forall|i: int| 0 <= i < after.windows().len() implies follows_rules(
                        (#[trigger] after.windows()[i]).steps,
                    ) by {
                        assert(after.windows()[i] == before.windows()[i + 1]);
                    }
                }
            },
            CollectorOp::MarkReset => {
                lemma_honest_windows(trace_duration, max_completed_traces, earlier);
                assert(before.marked().windows() =~= before.windows());
            },
            CollectorOp::Clear => {
                lemma_honest_windows(trace_duration, max_completed_traces, earlier);
                assert(before.cleared().windows() =~= Seq::empty());
            },
        }
    }
}

proof fn lemma_rules_hold_of_prefix(samples: Seq<MovementStep>, step: MovementStep)
    requires
        follows_rules(samples.push(step)),
    ensures
        follows_rules(samples),
{
    let stream = samples.push(step);
    assert forall|i: int| 0 <= i < samples.len() implies (#[trigger] samples[i]).velocity == expected_velocity_spec(
        samples[i].inputs,
    ) by {
        assert(stream[i] == samples[i]);
    }
    assert forall|i: int| 0 <= i < samples.len() - 1 implies moves_by(
        samples[i].position,
        (#[trigger] samples[i + 1]).position,
        samples[i + 1].velocity,
    ) by {
        assert(stream[i] == samples[i]);
        assert(stream[i + 1] == samples[i + 1]);
    }
}

/// A window marked as the first after a reset that does not begin at the
/// origin at rest has no trace: arithmetization fails with the structural
/// violation, whatever the other samples are and whether or not its rows
/// would meet the constraints.
pub proof fn lemma_reset_window_off_origin_is_refused(
    steps: Seq<MovementStep>,
    height: nat,
    result: Result<Seq<u64>, ArithmetizeError>,
)
    requires
        0 < steps.len() <= height,
        !(steps[0].position == Position::origin() && steps[0].velocity == Velocity::zero()),
        arithmetize_spec(steps, true, height, result),
    ensures
        result == Err::<Seq<u64>, ArithmetizeError>(ArithmetizeError::StructuralViolation),
{
}

/// In the trace of a window, the row of a sample within the encoding
/// bound holds its position scaled and biased, below the encoding range,
/// and decoding the two cells gives the position back.
pub proof fn lemma_row_holds_the_encoded_position(steps: Seq<MovementStep>, height: nat, i: int)
    requires
        0 <= i < steps.len() <= height,
        position_in_bound(steps[i].position.x as int),
        position_in_bound(steps[i].position.y as int),
    ensures
        ({
            let row = window_rows(steps, height)[i];
            let position = steps[i].position;
            &&& row.position_x == position.x * POSITION_FACTOR + POSITION_BIAS
            &&& row.position_y == position.y * POSITION_FACTOR + POSITION_BIAS
            &&& 0 <= row.position_x < POSITION_RANGE
            &&& 0 <= row.position_y < POSITION_RANGE
            &&& decode_position_spec(row.position_x as int) == Some(position.x as int)
            &&& decode_position_spec(row.position_y as int) == Some(position.y as int)
        }),
{
    lemma_decode_inverts_encode(steps[i].position.x as int);
    lemma_decode_inverts_encode(steps[i].position.y as int);
}

} // verus!
