//! Tracing a solution curve from a seed: two cursors, one walking left and
//! one walking right, each alive until it leaves the bounds or its slope
//! cannot be evaluated.
//!
//! The arithmetic of a step is the caller's. What is decided here is whose
//! turn it is, when a cursor dies, and when tracing ends.

use crate::domain::Bounds;
use crate::domain::Point;
use crate::scalar::Scalar;
use vstd::prelude::*;

verus! {

/// The direction in which a cursor walks.
#[derive(Clone, Copy, Debug, PartialEq, Eq, Structural)]
pub enum Side {
    Left,
    Right,
}

/// One traced step, in domain space, tagged with the cursor that took it.
#[derive(Clone, Copy, Debug, PartialEq, Eq, Structural)]
pub struct Segment {
    pub from: Point,
    pub to: Point,
    pub side: Side,
}

/// One of the two trace fronts.
#[derive(Clone, Copy, Debug, PartialEq, Eq, Structural)]
pub struct Cursor {
    pub at: Point,
    pub live: bool,
}

/// The step that is due: which cursor, and where it stands.
#[derive(Clone, Copy, Debug, PartialEq, Eq, Structural)]
pub struct Request {
    pub side: Side,
    pub from: Point,
}

/// The state of one trace.
#[derive(Clone, Copy, Debug, PartialEq, Eq, Structural)]
pub struct Tracer {
    pub bounds: Bounds,
    pub left: Cursor,
    pub right: Cursor,
    /// The cursor that is asked first for the next step.
    pub turn: Side,
    /// Steps that may still be taken before tracing is cut off.
    pub budget: u64,
}

/// Where the cursor of `side` stands after the segments drawn: at the end
/// of its last segment, or on the seed if it drew none.
pub open spec fn tip(segments: Seq<Segment>, side: Side, seed: Point) -> Point
    decreases segments.len(),
{
    if segments.len() == 0 {
        seed
    } else if segments.last().side == side {
        segments.last().to
    } else {
        tip(segments.drop_last(), side, seed)
    }
}

/// Each side's segments form one polyline from the seed: every segment
/// starts where the segment before it on its side ended.
pub open spec fn connected(segments: Seq<Segment>, seed: Point) -> bool
    decreases segments.len(),
{
    segments.len() == 0 || {
        &&& connected(segments.drop_last(), seed)
        &&& segments.last().from == tip(segments.drop_last(), segments.last().side, seed)
    }
}

/// Every segment lies at the height `y`, from end to end.
pub open spec fn flat_at(segments: Seq<Segment>, y: Scalar) -> bool {
    forall|k: int|
        0 <= k < segments.len() ==> (#[trigger] segments[k]).from.y.equals(y)
            && segments[k].to.y.equals(y)
}

/// The most steps that a trace may take when `crossing` steps lead across
/// the whole range of `t`: each of the two cursors may cross it once, and
/// two steps are to spare. Never more than a `u64` holds.
pub open spec fn budget_for(crossing: u64) -> int {
    if 2 * crossing + 2 > u64::MAX {
        u64::MAX as int
    } else {
        2 * crossing + 2
    }
}

/// The cap on the steps of a trace, from the number of steps that cross
/// the range of `t`.
pub fn step_budget(crossing: u64) -> (budget: u64)
    ensures
        budget == budget_for(crossing),
{
    if crossing > (u64::MAX - 2) / 2 {
        u64::MAX
    } else {
        2 * crossing + 2
    }
}

impl Side {
    /// The other side, for use in contracts.
    pub open spec fn flipped(self) -> Side {
        match self {
            Side::Left => Side::Right,
            Side::Right => Side::Left,
        }
    }

    /// The other side.
    pub fn other(self) -> (s: Side)
        ensures
            s == self.flipped(),
    {
        match self {
            Side::Left => Side::Right,
            Side::Right => Side::Left,
        }
    }
}

impl Tracer {
    /// A live cursor stands within the bounds.
    pub open spec fn wf(self) -> bool {
        &&& self.left.live ==> self.bounds.holds(self.left.at)
        &&& self.right.live ==> self.bounds.holds(self.right.at)
    }

    /// The cursor of one side.
    pub open spec fn cursor(self, side: Side) -> Cursor {
        match side {
            Side::Left => self.left,
            Side::Right => self.right,
        }
    }

    /// Both cursors on the seed, alive if the seed is in bounds; the left
    /// cursor moves first.
    pub open spec fn begun(bounds: Bounds, seed: Point, budget: u64) -> Tracer {
        let cursor = Cursor { at: seed, live: bounds.holds(seed) };
        Tracer { bounds, left: cursor, right: cursor, turn: Side::Left, budget }
    }

    /// The step that is due: none once the budget is spent or both cursors
    /// are dead; else the cursor whose turn it is if it is alive, else the other.
    pub open spec fn due(self) -> Option<Request> {
        if self.budget == 0 {
            None
        } else if self.cursor(self.turn).live {
            Some(Request { side: self.turn, from: self.cursor(self.turn).at })
        } else if self.cursor(self.turn.flipped()).live {
            Some(Request { side: self.turn.flipped(), from: self.cursor(self.turn.flipped()).at })
        } else {
            None
        }
    }

    /// Tracing has ended.
    pub open spec fn done(self) -> bool {
        self.due() is None
    }

    /// The state with the cursor of one side replaced.
    pub open spec fn with_cursor(self, side: Side, cursor: Cursor) -> Tracer {
        match side {
            Side::Left => Tracer { left: cursor, ..self },
            Side::Right => Tracer { right: cursor, ..self },
        }
    }

    /// The state after the step that was due came out as `outcome`: the new
    /// point of the cursor, or nothing where its slope could not be
    /// evaluated. The cursor moves and lives on if the new point is in
    /// bounds; it dies where it stands on a failed evaluation. The turn
    /// passes to the other side and one unit of budget is spent. With no
    /// step due nothing changes.
    pub open spec fn stepped(self, outcome: Option<Point>) -> Tracer {
        match self.due() {
            None => self,
            Some(request) => {
                let cursor = match outcome {
                    Some(to) => Cursor { at: to, live: self.bounds.holds(to) },
                    None => Cursor { at: request.from, live: false },
                };
                Tracer {
                    turn: request.side.flipped(),
                    budget: (self.budget - 1) as u64,
                    ..self.with_cursor(request.side, cursor)
                }
            },
        }
    }

    /// The segment drawn by that step: from where the cursor stood to its
    /// new point, also when the new point is out of bounds.
    pub open spec fn drawn(self, outcome: Option<Point>) -> Option<Segment> {
        match (self.due(), outcome) {
            (Some(request), Some(to)) => Some(
                Segment { from: request.from, to, side: request.side },
            ),
            _ => None,
        }
    }

    /// The state after a run of steps with the given outcomes.
    pub open spec fn after(self, outcomes: Seq<Option<Point>>) -> Tracer
        decreases outcomes.len(),
    {
        if outcomes.len() == 0 {
            self
        } else {
            self.after(outcomes.drop_last()).stepped(outcomes.last())
        }
    }

    /// The segments drawn by a run of steps with the given outcomes.
    pub open spec fn trail(self, outcomes: Seq<Option<Point>>) -> Seq<Segment>
        decreases outcomes.len(),
    {
        if outcomes.len() == 0 {
            Seq::empty()
        } else {
            let before = self.after(outcomes.drop_last());
            let earlier = self.trail(outcomes.drop_last());
            match before.drawn(outcomes.last()) {
                Some(segment) => earlier.push(segment),
                None => earlier,
            }
        }
    }

    /// Starts a trace at `seed` that may take at most `budget` steps.
    pub fn start(bounds: Bounds, seed: Point, budget: u64) -> (tracer: Tracer)
        ensures
            tracer == Tracer::begun(bounds, seed, budget),
            tracer.wf(),
    {
        let cursor = Cursor { at: seed, live: bounds.contains(seed) };
        Tracer { bounds, left: cursor, right: cursor, turn: Side::Left, budget }
    }

    /// The step that the caller is to compute next, if any.
    pub fn pending(&self) -> (r: Option<Request>)
        ensures
            r == self.due(),
    {
        if self.budget == 0 {
            return None;
        }
        let (first, second) = match self.turn {
            Side::Left => (self.left, self.right),
            Side::Right => (self.right, self.left),
        };
        if first.live {
            Some(Request { side: self.turn, from: first.at })
        } else if second.live {
            Some(Request { side: self.turn.other(), from: second.at })
        } else {
            None
        }
    }

    /// Whether tracing has ended.
    pub fn finished(&self) -> (r: bool)
        ensures
            r == self.done(),
    {
        self.pending().is_none()
    }

    /// Takes in the outcome of the pending step and returns the segment to draw.
    pub fn advance(&mut self, outcome: Option<Point>) -> (segment: Option<Segment>)
        ensures
            *final(self) == old(self).stepped(outcome),
            segment == old(self).drawn(outcome),
            old(self).wf() ==> final(self).wf(),
    {
        match self.pending() {
            None => None,
            Some(request) => {
                let (cursor, segment) = match outcome {
                    Some(to) => (
                        Cursor { at: to, live: self.bounds.contains(to) },
                        Some(Segment { from: request.from, to, side: request.side }),
                    ),
                    None => (Cursor { at: request.from, live: false }, None),
                };
                match request.side {
                    Side::Left => {
                        self.left = cursor;
                    },
                    Side::Right => {
                        self.right = cursor;
                    },
                }
                self.turn = request.side.other();
                self.budget = self.budget - 1;
                segment
            },
        }
    }

    /// A step never revives a cursor: one that is dead stays dead.
    pub proof fn lemma_dead_stays_dead(self, outcome: Option<Point>, side: Side)
        requires
            !self.cursor(side).live,
        ensures
            !self.stepped(outcome).cursor(side).live,
            self.stepped(outcome).cursor(side).at == self.cursor(side).at,
    {
    }

    /// Every step taken spends one unit of budget, and a step is due only
    /// while budget is left.
    pub proof fn lemma_step_spends(self, outcome: Option<Point>)
        ensures
            self.due() is Some ==> self.stepped(outcome).budget + 1 == self.budget,
            self.due() is None ==> self.stepped(outcome) == self,
            self.budget == 0 ==> self.done(),
    {
    }

    /// A cursor whose step yields a NaN coordinate, or no point at all, is
    /// dead after that step.
    pub proof fn lemma_bad_step_kills(self, outcome: Option<Point>)
        requires
            self.due() is Some,
            match outcome {
                Some(to) => to.t.nan() || to.y.nan(),
                None => true,
            },
        ensures
            !self.stepped(outcome).cursor(self.due()->0.side).live,
    {
    }

    /// The step that is due starts from a point within the bounds.
    pub proof fn lemma_due_in_bounds(self)
        requires
            self.wf(),
            self.due() is Some,
        ensures
            self.bounds.holds(self.due()->0.from),
    {
    }

    /// The segments of a run from a seed are connected, and each cursor
    /// stands where its last segment ended.
    pub proof fn lemma_run_connected(
        bounds: Bounds,
        seed: Point,
        budget: u64,
        outcomes: Seq<Option<Point>>,
    )
        ensures
            connected(Tracer::begun(bounds, seed, budget).trail(outcomes), seed),
            forall|side: Side|
                #![trigger Tracer::begun(bounds, seed, budget).after(outcomes).cursor(side)]
                Tracer::begun(bounds, seed, budget).after(outcomes).cursor(side).at == tip(
                    Tracer::begun(bounds, seed, budget).trail(outcomes),
                    side,
                    seed,
                ),
        decreases outcomes.len(),
    {
        let start = Tracer::begun(bounds, seed, budget);
        if outcomes.len() > 0 {
            Tracer::lemma_run_connected(bounds, seed, budget, outcomes.drop_last());
            let before = start.after(outcomes.drop_last());
            let earlier = start.trail(outcomes.drop_last());
            assert(before.cursor(Side::Left).at == tip(earlier, Side::Left, seed));
            assert(before.cursor(Side::Right).at == tip(earlier, Side::Right, seed));
            match before.drawn(outcomes.last()) {
                Some(segment) => {
                    assert(earlier.push(segment).drop_last() =~= earlier);
                },
                None => {},
            }
        }
    }

    /// Every step of a run that reached a new point kept `y`, as a number.
    pub open spec fn level(self, outcomes: Seq<Option<Point>>) -> bool
        decreases outcomes.len(),
    {
        outcomes.len() == 0 || {
            &&& self.level(outcomes.drop_last())
            &&& match (self.after(outcomes.drop_last()).due(), outcomes.last()) {
                (Some(request), Some(to)) => to.y.equals(request.from.y),
                _ => true,
            }
        }
    }

    /// Where no step changes `y`, the curve is a horizontal line through
    /// the seed: every segment of the run, of the left and of the right
    /// cursor, lies at the height of the seed.
    pub proof fn lemma_level_run(
        bounds: Bounds,
        seed: Point,
        budget: u64,
        outcomes: Seq<Option<Point>>,
    )
        requires
            Tracer::begun(bounds, seed, budget).level(outcomes),
        ensures
            flat_at(Tracer::begun(bounds, seed, budget).trail(outcomes), seed.y),
            forall|side: Side|
                #![trigger Tracer::begun(bounds, seed, budget).after(outcomes).cursor(side)]
                Tracer::begun(bounds, seed, budget).after(outcomes).cursor(side).live
                    ==> Tracer::begun(bounds, seed, budget).after(outcomes).cursor(
                    side,
                ).at.y.equals(seed.y),
        decreases outcomes.len(),
    {
        let start = Tracer::begun(bounds, seed, budget);
        if outcomes.len() > 0 {
            Tracer::lemma_level_run(bounds, seed, budget, outcomes.drop_last());
            let before = start.after(outcomes.drop_last());
            assert(before.cursor(Side::Left).live ==> before.cursor(Side::Left).at.y.equals(seed.y));
            assert(before.cursor(Side::Right).live ==> before.cursor(Side::Right).at.y.equals(
                seed.y,
            ));
        }
    }

    /// A run never outlasts its budget: whatever the steps yield, after as
    /// many steps as the budget allows tracing has ended, and no more
    /// segments were drawn than steps were taken. Every segment starts
    /// within the bounds.
    pub proof fn lemma_run_ends(self, outcomes: Seq<Option<Point>>)
        ensures
            self.after(outcomes).budget <= self.budget,
            self.after(outcomes).done() || self.after(outcomes).budget + outcomes.len()
                == self.budget,
            outcomes.len() >= self.budget ==> self.after(outcomes).done(),
            self.trail(outcomes).len() <= outcomes.len(),
            self.trail(outcomes).len() + self.after(outcomes).budget <= self.budget,
            self.after(outcomes).bounds == self.bounds,
            self.wf() ==> self.after(outcomes).wf(),
            self.wf() ==> forall|k: int|
                0 <= k < self.trail(outcomes).len() ==> self.bounds.holds(
                    (#[trigger] self.trail(outcomes)[k]).from,
                ),
        decreases outcomes.len(),
    {
        if outcomes.len() > 0 {
            self.lemma_run_ends(outcomes.drop_last());
        }
    }
}

/// Every outcome of a run is one that `step` may return for the request
/// that was due when it was asked.
pub open spec fn follows<F: Fn(Side, Point) -> Option<Point>>(
    start: Tracer,
    outcomes: Seq<Option<Point>>,
    step: F,
) -> bool
    decreases outcomes.len(),
{
    if outcomes.len() == 0 {
        true
    } else {
        let request = start.after(outcomes.drop_last()).due();
        &&& follows(start, outcomes.drop_last(), step)
        &&& request is Some
        &&& step.ensures((request->0.side, request->0.from), outcomes.last())
    }
}

/// A run that is followed by one more step that `step` may return is a
/// run again, one step longer.
proof fn lemma_run_grows<F: Fn(Side, Point) -> Option<Point>>(
    start: Tracer,
    before: Seq<Option<Point>>,
    outcome: Option<Point>,
    step: F,
)
    requires
        follows(start, before, step),
        start.after(before).due() is Some,
        step.ensures(
            (start.after(before).due()->0.side, start.after(before).due()->0.from),
            outcome,
        ),
    ensures
        follows(start, before.push(outcome), step),
        start.after(before.push(outcome)) == start.after(before).stepped(outcome),
        start.trail(before.push(outcome)) == match start.after(before).drawn(outcome) {
            Some(segment) => start.trail(before).push(segment),
            None => start.trail(before),
        },
{
    assert(before.push(outcome).drop_last() =~= before);
}

/// A run in which `step` never changes `y` is level.
proof fn lemma_follows_level<F: Fn(Side, Point) -> Option<Point>>(
    start: Tracer,
    outcomes: Seq<Option<Point>>,
    step: F,
)
    requires
        follows(start, outcomes, step),
        forall|side: Side, from: Point, to: Point| #[trigger]
            step.ensures((side, from), Some(to)) ==> to.y.equals(from.y),
    ensures
        start.level(outcomes),
    decreases outcomes.len(),
{
    if outcomes.len() > 0 {
        lemma_follows_level(start, outcomes.drop_last(), step);
    }
}

/// Traces the curve through `seed` to its end, asking `step` for each new
/// point: `step(side, from)` is the next point of that side's cursor, or
/// nothing where the slope at `from` cannot be evaluated.
///
/// `step` is only ever asked about points within the bounds. The segments
/// returned are those of a run from the seed, in the order drawn, that
/// went on until no step was due; at most `budget` steps were taken.
/// Where `step` never changes `y`, as for the equation that is zero
/// everywhere, every segment is horizontal at the height of the seed.
pub fn trace_with<F: Fn(Side, Point) -> Option<Point>>(
    bounds: Bounds,
    seed: Point,
    budget: u64,
    step: F,
) -> (segments: Vec<Segment>)
    requires
        forall|side: Side, from: Point| bounds.holds(from) ==> step.requires((side, from)),
    ensures
        segments@.len() <= budget,
        connected(segments@, seed),
        forall|k: int| 0 <= k < segments@.len() ==> bounds.holds((#[trigger] segments@[k]).from),
        (forall|side: Side, from: Point, to: Point| #[trigger]
            step.ensures((side, from), Some(to)) ==> to.y.equals(from.y)) ==> flat_at(
            segments@,
            seed.y,
        ),
        exists|outcomes: Seq<Option<Point>>|
            {
                &&& outcomes.len() <= budget
                &&& follows(Tracer::begun(bounds, seed, budget), outcomes, step)
                &&& Tracer::begun(bounds, seed, budget).after(outcomes).done()
                &&& segments@ == #[trigger] Tracer::begun(bounds, seed, budget).trail(outcomes)
            },
{
    let ghost start = Tracer::begun(bounds, seed, budget);
    let mut tracer = Tracer::start(bounds, seed, budget);
    let mut segments: Vec<Segment> = Vec::new();
    let ghost mut outcomes: Seq<Option<Point>> = Seq::empty();
    loop
        invariant_except_break
            tracer == start.after(outcomes),
            segments@ == start.trail(outcomes),
            follows(start, outcomes, step),
            outcomes.len() + tracer.budget == budget,
        invariant
            start == Tracer::begun(bounds, seed, budget),
            tracer.wf(),
            tracer.bounds == bounds,
            forall|side: Side, from: Point| bounds.holds(from) ==> step.requires((side, from)),
        ensures
            outcomes.len() <= budget,
            follows(start, outcomes, step),
            start.after(outcomes).done(),
            segments@ == start.trail(outcomes),
        decreases tracer.budget,
    {
        match tracer.pending() {
            None => {
                break ;
            },
            Some(request) => {
                let outcome = step(request.side, request.from);
                let ghost before = outcomes;
                let segment = tracer.advance(outcome);
                proof {
                    lemma_run_grows(start, before, outcome, step);
                    outcomes = before.push(outcome);
                }
                match segment {
                    Some(drawn) => {
                        segments.push(drawn);
                    },
                    None => {},
                }
            },
        }
    }
    proof {
        start.lemma_run_ends(outcomes);
        Tracer::lemma_run_connected(bounds, seed, budget, outcomes);
        if forall|side: Side, from: Point, to: Point| #[trigger]
            step.ensures((side, from), Some(to)) ==> to.y.equals(from.y) {
            lemma_follows_level(start, outcomes, step);
            Tracer::lemma_level_run(bounds, seed, budget, outcomes);
        }
    }
    segments
}

} // verus!
