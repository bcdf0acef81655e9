use std::collections::VecDeque;
use vstd::prelude::*;
use vstd::std_specs::vecdeque::VecDequeAdditionalSpecFns;

use crate::config::{Config, Direction};
use crate::vehicle::{spawned, Vehicle, VehicleDirection};

verus! {

/// Hook for monitoring the traffic lights; the lights are arbitrated by
/// `Intersection::update_lights`, so there is nothing left to do here.
pub fn traffic_check() {
}

/// Admission control: a lane takes a new vehicle when the vehicle nearest
/// the spawn point has come at least the headway, safe distance plus a
/// vehicle width, from it along the lane's axis; said here of every
/// vehicle, which is the same (see `lemma_admits_by_nearest`). The nearest
/// is usually the newest, but not always: a vehicle that turned keeps its
/// coordinate on the axis while a later one going straight passes it. An
/// empty lane always takes one.
pub open spec fn admits(lane: Seq<Vehicle>, cfg: Config) -> bool {
    forall|j: int| 0 <= j < lane.len() ==> (#[trigger] lane[j]).progress(cfg) >= cfg.headway()
}

/// Whether the lane `vec` admits a new vehicle.
pub fn can_spawn_vehicle(vec: &VecDeque<Vehicle>, cfg: &Config) -> (r: bool)
    requires
        cfg.wf(),
        forall|j: int| 0 <= j < vec.len() ==> (#[trigger] vec[j]).wf(*cfg),
    ensures
        r == admits(vec@, *cfg),
{
    let mut i: usize = 0;
    while i < vec.len()
        invariant
            cfg.wf(),
            forall|j: int| 0 <= j < vec.len() ==> (#[trigger] vec[j]).wf(*cfg),
            i <= vec.len(),
            forall|j: int| 0 <= j < i ==> (#[trigger] vec[j]).progress(*cfg) >= cfg.headway(),
        decreases vec.len() - i,
    {
        if vec[i].approach_coord(cfg) + cfg.reach < cfg.safe_distance + cfg.vehicle_width {
            return false;
        }
        i = i + 1;
    }
    true
}

/// Admission judged by the vehicle nearest the spawn point: when `n` has
/// made the least progress of the lane, the lane admits a vehicle exactly
/// when `n` is at least the headway from the spawn point.
pub proof fn lemma_admits_by_nearest(lane: Seq<Vehicle>, cfg: Config, n: int)
    requires
        0 <= n < lane.len(),
        forall|j: int| 0 <= j < lane.len() ==> lane[n].progress(cfg) <= (#[trigger] lane[j]).progress(cfg),
    ensures
        admits(lane, cfg) == (lane[n].progress(cfg) >= cfg.headway()),
{
}

/// Right after a lane admits a vehicle, the new one stands at its spawn
/// point and every other vehicle of the lane is at least the headway, so
/// more than the safe distance, ahead of it along the lane's axis.
pub proof fn lemma_spawn_keeps_distance(
    lane: Seq<Vehicle>,
    a: VehicleDirection,
    intent: Direction,
    id: u64,
    cfg: Config,
)
    requires
        cfg.wf(),
        admits(lane, cfg),
    ensures
        ({
            let after = lane.push(spawned(id, a, intent, cfg));
            &&& after.last().progress(cfg) == 0
            &&& forall|j: int|
                0 <= j < after.len() - 1 ==> (#[trigger] after[j]).progress(cfg) - after.last().progress(
                    cfg,
                ) >= cfg.safe_distance + cfg.vehicle_width
        }),
{
    let after = lane.push(spawned(id, a, intent, cfg));
    assert forall|j: int| 0 <= j < after.len() - 1 implies (#[trigger] after[j]).progress(cfg)
        >= cfg.headway() by {
        assert(after[j] == lane[j]);
    }
}

} // verus!
