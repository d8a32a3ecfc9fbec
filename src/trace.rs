use vstd::prelude::*;

verus! {

/// What the scene query and the surface's material reported for one ray.
#[derive(Clone, Copy, PartialEq, Eq, Structural, Debug)]
pub enum TraceEvent {
    /// The ray left the scene without hitting anything.
    Miss,
    /// The ray hit a surface whose material declined to scatter.
    Absorbed,
    /// The ray hit a surface and the material produced a scattered ray.
    Scattered,
}

/// What the path-tracing estimator does next with a ray.
#[derive(Clone, Copy, PartialEq, Eq, Structural, Debug)]
pub enum TraceAction {
    /// Contribute no light.
    Black,
    /// Contribute the background gradient seen along the ray.
    Background,
    /// Follow the scattered ray with the remaining bounce budget, and
    /// attenuate what it brings back by the material's attenuation.
    Bounce(i32),
}

/// A ray with no bounce budget left is cut off before the scene is queried.
pub open spec fn exhausted_spec(depth: int) -> bool {
    depth <= 0
}

pub open spec fn action_spec(depth: int, event: TraceEvent) -> TraceAction
    recommends
        !exhausted_spec(depth),
{
    match event {
        TraceEvent::Miss => TraceAction::Background,
        TraceEvent::Absorbed => TraceAction::Black,
        TraceEvent::Scattered => TraceAction::Bounce((depth - 1) as i32),
    }
}

/// Whether the estimator must stop on this ray without querying the scene.
pub fn budget_exhausted(depth: i32) -> (r: bool)
    ensures
        r == exhausted_spec(depth as int),
{
    depth <= 0
}

/// The estimator's decision once the scene has been queried for a ray that
/// still has bounce budget.
pub fn next_action(depth: i32, event: TraceEvent) -> (a: TraceAction)
    requires
        !exhausted_spec(depth as int),
    ensures
        a == action_spec(depth as int, event),
        a matches TraceAction::Bounce(d) ==> d == depth - 1 && 0 <= d,
{
    match event {
        TraceEvent::Miss => TraceAction::Background,
        TraceEvent::Absorbed => TraceAction::Black,
        TraceEvent::Scattered => TraceAction::Bounce(depth - 1),
    }
}

/// How a light path ends, given the budget it starts with and the events
/// reported along it.
#[derive(Clone, Copy, PartialEq, Eq, Structural, Debug)]
pub enum PathEnd {
    /// The bounce budget ran out.
    BudgetSpent,
    /// The path escaped to the background.
    Sky,
    /// A material absorbed the path.
    Absorbed,
    /// The recorded events stop before the path ends.
    Open,
}

/// The number of scattering events that the estimator follows on a path that
/// starts with `depth` budget and meets `events` in turn, and how it ends.
pub open spec fn follow(depth: int, events: Seq<TraceEvent>) -> (nat, PathEnd)
    decreases events.len(),
{
    if exhausted_spec(depth) {
        (0, PathEnd::BudgetSpent)
    } else if events.len() == 0 {
        (0, PathEnd::Open)
    } else {
        match action_spec(depth, events[0]) {
            TraceAction::Background => (0, PathEnd::Sky),
            TraceAction::Black => (0, PathEnd::Absorbed),
            TraceAction::Bounce(_) => {
                let rest = follow(depth - 1, events.drop_first());
                (rest.0 + 1, rest.1)
            },
        }
    }
}

/// The recursion of the estimator is bounded by the bounce budget: whatever
/// the scene and materials report, a path follows at most `depth` scattered
/// rays, and once it has followed `depth` of them it is cut off.
pub proof fn lemma_bounces_bounded(depth: int, events: Seq<TraceEvent>)
    ensures
        follow(depth, events).0 <= if depth > 0 { depth } else { 0 },
        follow(depth, events).0 == depth ==> depth == 0 || follow(depth, events).1
            == PathEnd::BudgetSpent,
    decreases events.len(),
{
    if !exhausted_spec(depth) && events.len() > 0 {
        lemma_bounces_bounded(depth - 1, events.drop_first());
    }
}

/// A path whose every ray scatters, with at least as many events as budget,
/// is cut off by the budget after exactly `depth` bounces.
pub proof fn lemma_scattering_path_cut_off(depth: int, events: Seq<TraceEvent>)
    requires
        depth >= 0,
        events.len() >= depth,
        forall|k: int| 0 <= k < events.len() ==> events[k] == TraceEvent::Scattered,
    ensures
        follow(depth, events) == (depth as nat, PathEnd::BudgetSpent),
    decreases events.len(),
{
    if depth > 0 {
        let rest = events.drop_first();
        assert forall|k: int| 0 <= k < rest.len() implies rest[k] == TraceEvent::Scattered by {
            assert(rest[k] == events[k + 1]);
        }
        lemma_scattering_path_cut_off(depth - 1, rest);
    }
}

} // verus!
