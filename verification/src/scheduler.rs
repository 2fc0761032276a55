//! The frame scheduler: the stages of one tick, the order they are declared
//! to run in, and the length of a tick.

use vstd::prelude::*;

verus! {

/// A stage of the per-tick pipeline. All but the first belong to the physics
/// engine.
#[derive(Clone, Copy, Debug, PartialEq, Eq, Structural)]
pub enum Stage {
    /// The movement system of this crate.
    Move,
    /// The impulse solver, which reads the forces that `Move` has written.
    Solver,
    /// Set-up of the next frame.
    NextFrame,
    /// Spatial sorting.
    Sorting,
    /// Collision detection, which writes contact events.
    Collision,
    /// Contact resolution, which reads contact events.
    Resolution,
}

impl Stage {
    /// The stages that are declared to run before this one.
    pub open spec fn needs(self) -> Seq<Stage> {
        match self {
            Stage::Move => seq![],
            Stage::Solver => seq![],
            Stage::NextFrame => seq![Stage::Solver],
            Stage::Sorting => seq![Stage::NextFrame],
            Stage::Collision => seq![Stage::Sorting],
            Stage::Resolution => seq![Stage::Collision],
        }
    }

    /// The place of the stage among the six, counted from 0.
    pub open spec fn rank(self) -> int {
        match self {
            Stage::Move => 0,
            Stage::Solver => 1,
            Stage::NextFrame => 2,
            Stage::Sorting => 3,
            Stage::Collision => 4,
            Stage::Resolution => 5,
        }
    }

    /// The place of the stage among the six, counted from 0.
    fn place(self) -> (at: usize)
        ensures
            at == self.rank(),
            at < 6,
    {
        match self {
            Stage::Move => 0,
            Stage::Solver => 1,
            Stage::NextFrame => 2,
            Stage::Sorting => 3,
            Stage::Collision => 4,
            Stage::Resolution => 5,
        }
    }

    /// The name under which the stage is registered.
    pub open spec fn label(self) -> Seq<char> {
        match self {
            Stage::Move => "move_system"@,
            Stage::Solver => "solver"@,
            Stage::NextFrame => "next_frame"@,
            Stage::Sorting => "sorting"@,
            Stage::Collision => "collision"@,
            Stage::Resolution => "resolution"@,
        }
    }

    /// The name under which the stage is registered.
    pub fn name(self) -> (name: &'static str)
        ensures
            name@ == self.label(),
    {
        match self {
            Stage::Move => "move_system",
            Stage::Solver => "solver",
            Stage::NextFrame => "next_frame",
            Stage::Sorting => "sorting",
            Stage::Collision => "collision",
            Stage::Resolution => "resolution",
        }
    }

    /// The stages that are declared to run before this one.
    pub fn dependencies(self) -> (stages: Vec<Stage>)
        ensures
            stages@ == self.needs(),
    {
        let mut stages: Vec<Stage> = Vec::new();
        match self {
            Stage::Move => {},
            Stage::Solver => {},
            Stage::NextFrame => stages.push(Stage::Solver),
            Stage::Sorting => stages.push(Stage::NextFrame),
            Stage::Collision => stages.push(Stage::Sorting),
            Stage::Resolution => stages.push(Stage::Collision),
        }
        stages
    }
}

/// The order in which the stages are registered and run.
pub open spec fn declared_order() -> Seq<Stage> {
    seq![
        Stage::Move,
        Stage::Solver,
        Stage::NextFrame,
        Stage::Sorting,
        Stage::Collision,
        Stage::Resolution,
    ]
}

/// Whether `stage` stands in `order` before position `limit`.
pub open spec fn runs_earlier(order: Seq<Stage>, stage: Stage, limit: int) -> bool {
    exists|i: int| 0 <= i < limit && i < order.len() && order[i] == stage
}

/// Whether `order` is a way to run one tick: every stage once, and each
/// after all the stages it needs.
pub open spec fn respects(order: Seq<Stage>) -> bool {
    &&& order.no_duplicates()
    &&& forall|stage: Stage| order.contains(stage)
    &&& forall|j: int, d: int|
        0 <= j < order.len() && 0 <= d < order[j].needs().len() ==> runs_earlier(
            order,
            #[trigger] order[j].needs()[d],
            j,
        )
}

/// Where `stage` stands in `order`.
pub open spec fn slot(order: Seq<Stage>, stage: Stage) -> int {
    choose|i: int| 0 <= i < order.len() && order[i] == stage
}

/// The step at which `stage` runs in tick `tick`, counted from the start of
/// tick 0, where each tick runs all of `order` before the next begins.
pub open spec fn step_of(order: Seq<Stage>, tick: nat, stage: Stage) -> int {
    tick * order.len() + slot(order, stage)
}

/// The stages in the order in which they are registered and run. The order
/// respects the declared dependencies, and puts `Move` before `Solver`,
/// which no declared dependency asks for.
pub fn pipeline() -> (order: Vec<Stage>)
    ensures
        order@ == declared_order(),
        respects(order@),
        slot(order@, Stage::Move) < slot(order@, Stage::Solver),
{
    let mut order: Vec<Stage> = Vec::new();
    order.push(Stage::Move);
    order.push(Stage::Solver);
    order.push(Stage::NextFrame);
    order.push(Stage::Sorting);
    order.push(Stage::Collision);
    order.push(Stage::Resolution);
    proof {
        lemma_declared_order_respects();
    }
    order
}

/// Decides [`respects`]: whether `order` runs every stage once, each after
/// all the stages it needs.
pub fn is_schedule(order: &Vec<Stage>) -> (yes: bool)
    ensures
        yes == respects(order@),
{
    let mut seen: Vec<bool> = vec![false, false, false, false, false, false];
    let mut j: usize = 0;
    while j < order.len()
        invariant
            0 <= j <= order.len(),
            seen.len() == 6,
            forall|stage: Stage| #[trigger] seen[stage.rank()] <==> runs_earlier(order@, stage, j as int),
            forall|a: int, b: int| 0 <= a < b < j ==> order[a] != order[b],
            forall|b: int, d: int|
                0 <= b < j && 0 <= d < order[b].needs().len() ==> runs_earlier(
                    order@,
                    #[trigger] order[b].needs()[d],
                    b,
                ),
        decreases order.len() - j,
    {
        let stage = order[j];
        let needed = stage.dependencies();
        let mut d: usize = 0;
        while d < needed.len()
            invariant
                0 <= d <= needed.len(),
                0 <= j < order.len(),
                seen.len() == 6,
                stage == order[j as int],
                needed@ == stage.needs(),
                forall|other: Stage| #[trigger]
                    seen[other.rank()] <==> runs_earlier(order@, other, j as int),
                forall|e: int| 0 <= e < d ==> runs_earlier(order@, #[trigger] needed[e], j as int),
            decreases needed.len() - d,
        {
            if !seen[needed[d].place()] {
                return false;
            }
            d += 1;
        }
        if seen[stage.place()] {
            return false;
        }
        seen.set(stage.place(), true);
        j += 1;
    }
    let all = seen[0] && seen[1] && seen[2] && seen[3] && seen[4] && seen[5];
    proof {
        if all {
            assert forall|stage: Stage| order@.contains(stage) by {
                assert(seen[stage.rank()]);
            }
        } else {
            let missing = choose|r: int| 0 <= r < 6 && !seen[r];
            let stage = if missing == 0 {
                Stage::Move
            } else if missing == 1 {
                Stage::Solver
            } else if missing == 2 {
                Stage::NextFrame
            } else if missing == 3 {
                Stage::Sorting
            } else if missing == 4 {
                Stage::Collision
            } else {
                Stage::Resolution
            };
            assert(stage.rank() == missing);
            assert(!order@.contains(stage));
        }
    }
    all
}

/// Law: the declared order is a way to run one tick, and it runs `Move`
/// first and `Solver` second.
pub proof fn lemma_declared_order_respects()
    ensures
        respects(declared_order()),
        slot(declared_order(), Stage::Move) == 0,
        slot(declared_order(), Stage::Solver) == 1,
{
}

/// Law: in every order that respects the dependencies, a stage runs after
/// each stage it needs.
pub proof fn lemma_needed_stage_runs_first(order: Seq<Stage>, stage: Stage, needed: Stage)
    requires
        respects(order),
        stage.needs().contains(needed),
    ensures
        0 <= slot(order, needed) < slot(order, stage) < order.len(),
{
    assert(order.contains(stage));
}

/// Law: contact resolution never looks ahead. Each tick runs collision
/// detection before contact resolution, and a tick is over before the next
/// begins. So the collision stage of tick `produced` has run by the time the
/// resolution stage of tick `observed` runs exactly when `produced` is not
/// later than `observed`: resolution finds the contacts of its own tick and
/// of earlier ticks, and none of a later tick.
pub proof fn lemma_no_look_ahead(order: Seq<Stage>, produced: nat, observed: nat)
    requires
        respects(order),
    ensures
        step_of(order, produced, Stage::Collision) < step_of(order, observed, Stage::Resolution)
            <==> produced <= observed,
{
    assert(Stage::Resolution.needs()[0] == Stage::Collision);
    lemma_needed_stage_runs_first(order, Stage::Resolution, Stage::Collision);
    let n = order.len() as int;
    if produced <= observed {
        assert(produced * n <= observed * n) by (nonlinear_arith)
            requires
                produced <= observed,
                0 <= n,
        ;
    } else {
        assert(produced * n >= observed * n + n) by (nonlinear_arith)
            requires
                produced >= observed + 1,
                0 <= n,
        ;
    }
}

/// Longest tick handed to the physics engine: a twentieth of a second, in
/// nanoseconds.
pub const MAX_TICK_NANOS: u32 = 50_000_000;

/// The length of a tick that took `secs` seconds and `subsec_nanos`
/// nanoseconds of wall-clock time, in nanoseconds: the time itself, capped
/// at [`MAX_TICK_NANOS`].
pub open spec fn clamped(secs: u64, subsec_nanos: u32) -> int {
    let elapsed = secs * 1_000_000_000 + subsec_nanos;
    if elapsed < MAX_TICK_NANOS {
        elapsed
    } else {
        MAX_TICK_NANOS as int
    }
}

/// The length of the tick to hand to the physics engine, in nanoseconds,
/// for a frame that took `secs` seconds and `subsec_nanos` nanoseconds.
pub fn clamp_tick(secs: u64, subsec_nanos: u32) -> (nanos: u32)
    ensures
        nanos == clamped(secs, subsec_nanos),
        nanos <= MAX_TICK_NANOS,
{
    if secs > 0 || subsec_nanos > MAX_TICK_NANOS {
        MAX_TICK_NANOS
    } else {
        subsec_nanos
    }
}

/// Whether the frame rate is due to be reported after `ticks` ticks: every
/// hundredth tick, the first included.
pub fn fps_report_due(ticks: usize) -> (due: bool)
    ensures
        due == (ticks % 100 == 0),
{
    ticks % 100 == 0
}

} // verus!
