//! Windows of per-tick samples and the collector that cuts them.

use crate::simulation::{LastInputState, Position, Velocity};
use std::collections::VecDeque;
use vstd::prelude::*;

verus! {

/// The direction flags recorded with a sample.
#[derive(Clone, Copy, Debug, PartialEq, Eq, Structural)]
pub struct InputFlags {
    pub left: bool,
    pub right: bool,
    pub up: bool,
    pub down: bool,
}

impl Default for InputFlags {
    fn default() -> (flags: Self)
        ensures
            flags == (InputFlags { left: false, right: false, up: false, down: false }),
    {
        InputFlags { left: false, right: false, up: false, down: false }
    }
}

impl InputFlags {
    /// The flags of a captured input state.
    pub open spec fn of_spec(state: LastInputState) -> InputFlags {
        InputFlags { left: state.left, right: state.right, up: state.up, down: state.down }
    }

    #[verifier::when_used_as_spec(of_spec)]
    pub fn of(state: LastInputState) -> (flags: InputFlags)
        ensures
            flags == InputFlags::of_spec(state),
    {
        InputFlags { left: state.left, right: state.right, up: state.up, down: state.down }
    }
}

/// One tick of observed player state. `timestamp` counts microseconds.
#[derive(Clone, Copy, Debug, PartialEq, Eq, Structural)]
pub struct MovementStep {
    pub position: Position,
    pub velocity: Velocity,
    pub inputs: InputFlags,
    pub timestamp: u64,
}

/// A window of consecutive samples, proven as one unit.
#[derive(Debug)]
pub struct MovementTrace {
    pub steps: Vec<MovementStep>,
    pub start_time: u64,
    pub duration: u64,
    pub is_first_trace_after_reset: bool,
}

/// What a window holds.
#[verifier::ext_equal]
pub ghost struct TraceView {
    pub steps: Seq<MovementStep>,
    pub start_time: u64,
    pub duration: u64,
    pub is_first_trace_after_reset: bool,
}

/// Microseconds from `start` to `now`, none if the clock ran backwards.
pub open spec fn elapsed(start: u64, now: u64) -> u64 {
    if now >= start {
        (now - start) as u64
    } else {
        0
    }
}

impl TraceView {
    /// The window without samples that starts at `start_time`.
    pub open spec fn empty(start_time: u64, is_first_trace_after_reset: bool) -> TraceView {
        TraceView { steps: Seq::empty(), start_time, duration: 0, is_first_trace_after_reset }
    }

    /// The window with `step` appended; its duration runs to that sample.
    pub open spec fn with_step(self, step: MovementStep) -> TraceView {
        TraceView {
            steps: self.steps.push(step),
            duration: elapsed(self.start_time, step.timestamp),
            ..self
        }
    }

    /// The window has lasted at least `target_duration`.
    pub open spec fn is_complete(self, target_duration: u64) -> bool {
        self.duration >= target_duration
    }

    /// The window that `step` opens at its own time.
    pub open spec fn seeded(step: MovementStep, is_first_trace_after_reset: bool) -> TraceView {
        TraceView::empty(step.timestamp, is_first_trace_after_reset).with_step(step)
    }
}

impl View for MovementTrace {
    type V = TraceView;

    open spec fn view(&self) -> TraceView {
        TraceView {
            steps: self.steps@,
            start_time: self.start_time,
            duration: self.duration,
            is_first_trace_after_reset: self.is_first_trace_after_reset,
        }
    }
}

impl Clone for MovementTrace {
    fn clone(&self) -> (copy: Self)
        ensures
            copy@ == self@,
    {
        MovementTrace {
            steps: self.steps.clone(),
            start_time: self.start_time,
            duration: self.duration,
            is_first_trace_after_reset: self.is_first_trace_after_reset,
        }
    }
}

impl MovementTrace {
    /// An empty window that starts at `start_time`.
    pub fn new(start_time: u64) -> (trace: Self)
        ensures
            trace@ == TraceView::empty(start_time, false),
    {
        MovementTrace { steps: Vec::new(), start_time, duration: 0, is_first_trace_after_reset: false }
    }

    /// Appends a sample and extends the duration to its timestamp.
    pub fn add_step(&mut self, step: MovementStep)
        ensures
            final(self)@ == old(self)@.with_step(step),
    {
        self.duration = step.timestamp.saturating_sub(self.start_time);
        self.steps.push(step);
    }

    /// Whether the window has lasted at least `target_duration`.
    pub fn is_complete(&self, target_duration: u64) -> (complete: bool)
        ensures
            complete == self@.is_complete(target_duration),
    {
        self.duration >= target_duration
    }
}

/// Buffers samples into windows of a set duration and queues the sealed ones.
pub struct MovementTraceCollector {
    current_trace: Option<MovementTrace>,
    completed_traces: VecDeque<MovementTrace>,
    trace_duration: u64,
    max_completed_traces: usize,
    reset_marked: bool,
}

/// What a collector holds.
#[verifier::ext_equal]
pub ghost struct CollectorView {
    /// The window being filled.
    pub current: Option<TraceView>,
    /// The sealed windows, oldest first.
    pub completed: Seq<TraceView>,
    /// Duration at which a window is sealed.
    pub trace_duration: u64,
    /// Most sealed windows kept; older ones are dropped.
    pub max_completed_traces: usize,
    /// The next window to start is the first after a reset.
    pub reset_marked: bool,
}

/// The last `n` items of `s`, all of them where it has no more.
pub open spec fn keep_last<T>(s: Seq<T>, n: nat) -> Seq<T> {
    if s.len() <= n {
        s
    } else {
        s.subrange(s.len() - n, s.len() as int)
    }
}

/// The views of a sequence of windows.
pub open spec fn trace_views(traces: Seq<MovementTrace>) -> Seq<TraceView> {
    traces.map_values(|t: MovementTrace| t@)
}

impl CollectorView {
    /// The collector that has seen nothing.
    pub open spec fn fresh(trace_duration: u64, max_completed_traces: usize) -> CollectorView {
        CollectorView {
            current: None,
            completed: Seq::empty(),
            trace_duration,
            max_completed_traces,
            reset_marked: false,
        }
    }

    /// An empty window starts at `timestamp`, replacing the current one; it
    /// takes the reset mark.
    pub open spec fn started(self, timestamp: u64) -> CollectorView {
        CollectorView {
            current: Some(TraceView::empty(timestamp, self.reset_marked)),
            reset_marked: false,
            ..self
        }
    }

    /// The current window joins the queue, which drops its oldest windows
    /// over the limit.
    pub open spec fn sealed(self) -> CollectorView {
        match self.current {
            Some(trace) => CollectorView {
                current: None,
                completed: keep_last(self.completed.push(trace), self.max_completed_traces as nat),
                ..self
            },
            None => self,
        }
    }

    /// `step` is recorded. A window that it completes is sealed, and the next
    /// window opens with the same sample.
    pub open spec fn add(self, step: MovementStep) -> CollectorView {
        let begun = if self.current is None {
            self.started(step.timestamp)
        } else {
            self
        };
        let extended = CollectorView { current: Some(begun.current.unwrap().with_step(step)), ..begun };
        if extended.current.unwrap().is_complete(self.trace_duration) {
            let next = extended.sealed().started(step.timestamp);
            CollectorView { current: Some(next.current.unwrap().with_step(step)), ..next }
        } else {
            extended
        }
    }

    /// The oldest sealed window leaves the queue.
    pub open spec fn popped(self) -> CollectorView {
        if self.completed.len() > 0 {
            CollectorView { completed: self.completed.drop_first(), ..self }
        } else {
            self
        }
    }

    /// The next window to start will be the first after a reset.
    pub open spec fn marked(self) -> CollectorView {
        CollectorView { reset_marked: true, ..self }
    }

    /// Every buffered window is dropped, sealed or not.
    pub open spec fn cleared(self) -> CollectorView {
        CollectorView { current: None, completed: Seq::empty(), ..self }
    }

    /// The sealed windows followed by the current one.
    pub open spec fn windows(self) -> Seq<TraceView> {
        match self.current {
            Some(trace) => self.completed.push(trace),
            None => self.completed,
        }
    }

    /// Windows are sealed on time: every sealed window has lasted the set
    /// duration, and the window being filled has not, unless it has only
    /// just been opened with its first sample.
    pub open spec fn sealed_on_time(self) -> bool {
        &&& forall|i: int|
            0 <= i < self.completed.len() ==> (#[trigger] self.completed[i]).is_complete(self.trace_duration)
        &&& self.current matches Some(trace) ==> trace.steps.len() == 1 || !trace.is_complete(self.trace_duration)
    }

    /// No sample is missing between windows: every buffered window has a
    /// sample, each begins with the sample that ends the one before it, and a
    /// sealed window is always followed by another.
    pub open spec fn gapless(self) -> bool {
        &&& self.current is None ==> self.completed.len() == 0
        &&& forall|i: int| 0 <= i < self.windows().len() ==> (#[trigger] self.windows()[i]).steps.len() > 0
        &&& forall|i: int|
            0 <= i < self.windows().len() - 1 ==> (#[trigger] self.windows()[i + 1]).steps[0]
                == self.windows()[i].steps.last()
    }
}

/// One call on a collector.
pub ghost enum CollectorOp {
    /// Record a sample.
    Add(MovementStep),
    /// Take the oldest sealed window.
    Pop,
    /// Mark the next window as the first after a reset.
    MarkReset,
    /// Drop every buffered window.
    Clear,
}

impl CollectorView {
    /// The collector after one call.
    pub open spec fn apply(self, op: CollectorOp) -> CollectorView {
        match op {
            CollectorOp::Add(step) => self.add(step),
            CollectorOp::Pop => self.popped(),
            CollectorOp::MarkReset => self.marked(),
            CollectorOp::Clear => self.cleared(),
        }
    }

    /// The collector after a sequence of calls, first to last.
    pub open spec fn apply_all(self, ops: Seq<CollectorOp>) -> CollectorView
        decreases ops.len(),
    {
        if ops.len() == 0 {
            self
        } else {
            self.apply_all(ops.drop_last()).apply(ops.last())
        }
    }
}

/// The samples that a sequence of calls records, in their order.
pub open spec fn recorded_samples(ops: Seq<CollectorOp>) -> Seq<MovementStep>
    decreases ops.len(),
{
    if ops.len() == 0 {
        Seq::empty()
    } else {
        match ops.last() {
            CollectorOp::Add(step) => recorded_samples(ops.drop_last()).push(step),
            _ => recorded_samples(ops.drop_last()),
        }
    }
}

/// Recording a sample keeps a gapless collector gapless.
pub proof fn lemma_add_keeps_gapless(c: CollectorView, step: MovementStep)
    requires
        c.gapless(),
    ensures
        c.add(step).gapless(),
{
    let after = c.add(step);
    match c.current {
        None => {
            let seed = TraceView::seeded(step, false);
            assert(c.completed.len() == 0);
            let opened = TraceView::seeded(step, c.reset_marked);
            assert(opened.steps =~= seq![step]);
            if opened.is_complete(c.trace_duration) {
                let queue = keep_last(c.completed.push(opened), c.max_completed_traces as nat);
                assert(after.windows() =~= queue.push(seed));
                assert(seed.steps =~= seq![step]);
                assert(queue.len() <= 1);
                assert(forall|i: int| 0 <= i < queue.len() ==> queue[i] == opened);
            } else {
                assert(after.windows() =~= seq![opened]);
            }
        },
        Some(trace) => {
            let last = c.windows().len() - 1;
            assert(c.windows()[last] == trace);
            let grown = trace.with_step(step);
            let seed = TraceView::seeded(step, c.reset_marked);
            if grown.is_complete(c.trace_duration) {
                let pushed = c.completed.push(grown);
                let queue = keep_last(pushed, c.max_completed_traces as nat);
                assert(after.windows() =~= queue.push(seed));
                assert(seed.steps =~= seq![step]);
                let skip = pushed.len() - queue.len();
                assert forall|i: int| 0 <= i < queue.len() implies queue[i] == pushed[i + skip] by {}
                assert forall|i: int| 0 <= i < pushed.len() implies (#[trigger] pushed[i]).steps.len() > 0
                    && (i < last ==> pushed[i] == c.windows()[i]) && (i == last ==> pushed[i] == grown) by {
                    if i < last {
                        assert(c.windows()[i] == c.completed[i]);
                    }
                }
                assert forall|i: int| 0 <= i < after.windows().len() - 1 implies (
                #[trigger] after.windows()[i + 1]).steps[0] == after.windows()[i].steps.last() by {
                    if i + 1 < queue.len() {
                        let a = c.windows()[i + skip];
                        let b = c.windows()[i + skip + 1];
                        assert(b.steps[0] == a.steps.last());
                        if i + skip + 1 == last {
                            assert(grown.steps[0] == trace.steps[0]);
                        }
                    } else {
                        assert(queue[i] == grown);
                    }
                }
            } else {
                assert(after.windows() =~= c.windows().update(last, grown));
                assert(grown.steps[0] == trace.steps[0]);
                assert forall|i: int| 0 <= i < after.windows().len() - 1 implies (
                #[trigger] after.windows()[i + 1]).steps[0] == after.windows()[i].steps.last() by {
                    assert(c.windows()[i + 1].steps[0] == c.windows()[i].steps.last());
                }
            }
        },
    }
}

/// Taking the oldest sealed window keeps a gapless collector gapless.
pub proof fn lemma_popped_keeps_gapless(c: CollectorView)
    requires
        c.gapless(),
    ensures
        c.popped().gapless(),
{
    if c.completed.len() > 0 {
        let after = c.popped();
        assert(after.windows() =~= c.windows().drop_first());
        assert forall|i: int| 0 <= i < after.windows().len() implies (#[trigger] after.windows()[i]).steps.len()
            > 0 by {
            assert(after.windows()[i] == c.windows()[i + 1]);
        }
        assert forall|i: int| 0 <= i < after.windows().len() - 1 implies (
        #[trigger] after.windows()[i + 1]).steps[0] == after.windows()[i].steps.last() by {
            assert(c.windows()[i + 1 + 1].steps[0] == c.windows()[i + 1].steps.last());
        }
    }
}

/// Recording a sample keeps windows sealed on time.
pub proof fn lemma_add_keeps_sealed_on_time(c: CollectorView, step: MovementStep)
    requires
        c.sealed_on_time(),
    ensures
        c.add(step).sealed_on_time(),
{
    let after = c.add(step);
    let begun = if c.current is None {
        c.started(step.timestamp)
    } else {
        c
    };
    let grown = begun.current.unwrap().with_step(step);
    if grown.is_complete(c.trace_duration) {
        let pushed = c.completed.push(grown);
        let queue = keep_last(pushed, c.max_completed_traces as nat);
        assert(after.completed == queue);
        let skip = pushed.len() - queue.len();
        assert forall|i: int| 0 <= i < queue.len() implies (#[trigger] queue[i]).is_complete(c.trace_duration) by {
            assert(queue[i] == pushed[i + skip]);
            if i + skip < c.completed.len() {
                assert(c.completed[i + skip].is_complete(c.trace_duration));
            }
        }
    }
}

/// Whatever is called on a new collector, in whatever order, its windows
/// are sealed on time.
pub proof fn lemma_collector_seals_on_time(trace_duration: u64, max_completed_traces: usize, ops: Seq<CollectorOp>)
    ensures
        CollectorView::fresh(trace_duration, max_completed_traces).apply_all(ops).sealed_on_time(),
        CollectorView::fresh(trace_duration, max_completed_traces).apply_all(ops).trace_duration == trace_duration,
    decreases ops.len(),
{
    let start = CollectorView::fresh(trace_duration, max_completed_traces);
    if ops.len() > 0 {
        lemma_collector_seals_on_time(trace_duration, max_completed_traces, ops.drop_last());
        let before = start.apply_all(ops.drop_last());
        match ops.last() {
            CollectorOp::Add(step) => lemma_add_keeps_sealed_on_time(before, step),
            CollectorOp::Pop => {
                if before.completed.len() > 0 {
                    assert forall|i: int| 0 <= i < before.popped().completed.len() implies (
                    #[trigger] before.popped().completed[i]).is_complete(trace_duration) by {
                        assert(before.popped().completed[i] == before.completed[i + 1]);
                    }
                }
            },
            CollectorOp::MarkReset => {},
            CollectorOp::Clear => {},
        }
    }
}

/// Whatever is called on a new collector, in whatever order, no sample is
/// ever missing between two of its windows: each window that follows another
/// begins with the sample that ended its predecessor.
pub proof fn lemma_collector_stays_gapless(trace_duration: u64, max_completed_traces: usize, ops: Seq<CollectorOp>)
    ensures
        CollectorView::fresh(trace_duration, max_completed_traces).apply_all(ops).gapless(),
    decreases ops.len(),
{
    let start = CollectorView::fresh(trace_duration, max_completed_traces);
    if ops.len() == 0 {
        assert(start.windows() =~= Seq::empty());
    } else {
        lemma_collector_stays_gapless(trace_duration, max_completed_traces, ops.drop_last());
        let before = start.apply_all(ops.drop_last());
        match ops.last() {
            CollectorOp::Add(step) => lemma_add_keeps_gapless(before, step),
            CollectorOp::Pop => lemma_popped_keeps_gapless(before),
            CollectorOp::MarkReset => {
                assert(before.marked().windows() =~= before.windows());
            },
            CollectorOp::Clear => {
                assert(before.cleared().windows() =~= Seq::empty());
            },
        }
    }
}

/// In a gapless collector the first sample of window `k + 1` is the last
/// sample of window `k`.
pub proof fn lemma_adjacent_windows_share_sample(c: CollectorView, k: int)
    requires
        c.gapless(),
        0 <= k < c.windows().len() - 1,
    ensures
        c.windows()[k + 1].steps.first() == c.windows()[k].steps.last(),
{
}

impl View for MovementTraceCollector {
    type V = CollectorView;

    closed spec fn view(&self) -> CollectorView {
        CollectorView {
            current: match self.current_trace {
                Some(trace) => Some(trace@),
                None => None,
            },
            completed: trace_views(self.completed_traces@),
            trace_duration: self.trace_duration,
            max_completed_traces: self.max_completed_traces,
            reset_marked: self.reset_marked,
        }
    }
}

impl MovementTraceCollector {
    /// A collector that seals windows of `trace_duration` microseconds and
    /// keeps at most `max_completed_traces` of them.
    pub fn new(trace_duration: u64, max_completed_traces: usize) -> (collector: Self)
        ensures
            collector@ == CollectorView::fresh(trace_duration, max_completed_traces),
    {
        let collector = MovementTraceCollector {
            current_trace: None,
            completed_traces: VecDeque::new(),
            trace_duration,
            max_completed_traces,
            reset_marked: false,
        };
        assert(collector@.completed =~= Seq::empty());
        collector
    }

    /// Replaces the current window with an empty one that starts at
    /// `timestamp`. The samples of the window replaced are lost, so windows
    /// started by hand need not be gapless.
    pub fn start_new_trace(&mut self, timestamp: u64)
        ensures
            final(self)@ == old(self)@.started(timestamp),
    {
        let mut trace = MovementTrace::new(timestamp);
        trace.is_first_trace_after_reset = self.reset_marked;
        self.reset_marked = false;
        self.current_trace = Some(trace);
    }

    /// Records one tick. Where the sample completes the current window, the
    /// window is sealed and the next one opens with the same sample.
    pub fn add_movement(&mut self, position: Position, velocity: Velocity, inputs: InputFlags, timestamp: u64)
        ensures
            final(self)@ == old(self)@.add(MovementStep { position, velocity, inputs, timestamp }),
    {
        let step = MovementStep { position, velocity, inputs, timestamp };
        if self.current_trace.is_none() {
            self.start_new_trace(timestamp);
        }
        let mut trace = self.current_trace.take().unwrap();
        trace.add_step(step);
        let complete = trace.is_complete(self.trace_duration);
        self.current_trace = Some(trace);
        if complete {
            self.complete_current_trace();
            self.start_new_trace(timestamp);
            let mut next = self.current_trace.take().unwrap();
            next.add_step(step);
            self.current_trace = Some(next);
        }
    }

    /// Seals the current window, if there is one, whatever its duration, and
    /// drops the oldest sealed windows over the limit. The window that
    /// follows one sealed by hand starts afresh.
    pub fn complete_current_trace(&mut self)
        ensures
            final(self)@ == old(self)@.sealed(),
    {
        let taken = self.current_trace.take();
        if let Some(trace) = taken {
            self.completed_traces.push_back(trace);
            let ghost pushed = self.completed_traces@;
            while self.completed_traces.len() > self.max_completed_traces
                invariant
                    self.completed_traces@.len() <= pushed.len(),
                    self.completed_traces@.len() == pushed.len() || self.completed_traces@.len()
                        >= self.max_completed_traces,
                    self.completed_traces@ == pushed.subrange(
                        pushed.len() - self.completed_traces@.len(),
                        pushed.len() as int,
                    ),
                    self.max_completed_traces == old(self).max_completed_traces,
                    self.trace_duration == old(self).trace_duration,
                    self.reset_marked == old(self).reset_marked,
                    self.current_trace is None,
                decreases self.completed_traces@.len(),
            {
                self.completed_traces.pop_front();
            }
            proof {
                let kept = keep_last(trace_views(pushed), self.max_completed_traces as nat);
                assert(trace_views(pushed) =~= old(self)@.completed.push(trace@));
                assert(trace_views(self.completed_traces@) =~= kept);
            }
        }
    }

    /// Takes the oldest sealed window out of the queue.
    pub fn get_next_trace_for_proving(&mut self) -> (trace: Option<MovementTrace>)
        ensures
            final(self)@ == old(self)@.popped(),
            match trace {
                Some(t) => old(self)@.completed.len() > 0 && t@ == old(self)@.completed[0],
                None => old(self)@.completed.len() == 0,
            },
    {
        let trace = self.completed_traces.pop_front();
        proof {
            if old(self).completed_traces@.len() > 0 {
                assert(trace_views(self.completed_traces@) =~= old(self)@.completed.drop_first());
            }
        }
        trace
    }

    /// Marks the next window to start as the first after a reset.
    pub fn mark_next_trace_as_first_after_reset(&mut self)
        ensures
            final(self)@ == old(self)@.marked(),
    {
        self.reset_marked = true;
    }

    /// Drops every buffered window, sealed or not.
    pub fn clear(&mut self)
        ensures
            final(self)@ == old(self)@.cleared(),
    {
        self.current_trace = None;
        self.completed_traces.clear();
        assert(trace_views(self.completed_traces@) =~= Seq::empty());
    }

    /// The window being filled, if any.
    pub fn current_trace(&self) -> (trace: Option<&MovementTrace>)
        ensures
            match trace {
                Some(t) => self@.current == Some(t@),
                None => self@.current is None,
            },
    {
        self.current_trace.as_ref()
    }

    /// Number of sealed windows waiting in the queue.
    pub fn completed_len(&self) -> (len: usize)
        ensures
            len == self@.completed.len(),
    {
        self.completed_traces.len()
    }

    /// Duration at which a window is sealed, in microseconds.
    pub fn trace_duration(&self) -> (duration: u64)
        ensures
            duration == self@.trace_duration,
    {
        self.trace_duration
    }

    /// Most sealed windows kept.
    pub fn max_completed_traces(&self) -> (max: usize)
        ensures
            max == self@.max_completed_traces,
    {
        self.max_completed_traces
    }
}

/// The collection step of one tick: the player's state and the flags that
/// account for its velocity are recorded at `timestamp`.
pub fn movement_trace_collection_system(
    position: &Position,
    velocity: &Velocity,
    input_state: &LastInputState,
    collector: &mut MovementTraceCollector,
    timestamp: u64,
)
    ensures
        final(collector)@ == old(collector)@.add(
            MovementStep {
                position: *position,
                velocity: *velocity,
                inputs: InputFlags::of(*input_state),
                timestamp,
            },
        ),
{
    collector.add_movement(*position, *velocity, InputFlags::of(*input_state), timestamp);
}

} // verus!
