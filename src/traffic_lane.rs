use std::collections::VecDeque;
use vstd::prelude::*;
use vstd::std_specs::vecdeque::VecDequeAdditionalSpecFns;

use crate::config::{Config, Direction};
use crate::road::{admits, can_spawn_vehicle};
use crate::vehicle::{spawned, Outcome, Vehicle, VehicleDirection};

verus! {

/// The four approach lanes, each a queue in spawn order (front: the oldest
/// vehicle), and the counter that hands out vehicle ids across all of them.
pub struct TrafficLanes {
    /// Vehicles that came from the west.
    pub left: VecDeque<Vehicle>,
    /// Vehicles that came from the east.
    pub right: VecDeque<Vehicle>,
    /// Vehicles that came from the south.
    pub bottom: VecDeque<Vehicle>,
    /// Vehicles that came from the north.
    pub up: VecDeque<Vehicle>,
    /// The last id handed out.
    pub vehicle_id_counter: u64,
}

/// A lane of the approach `a`: its vehicles came from there, are small
/// enough for a tick, and carry increasing ids no larger than `last_id`.
pub open spec fn lane_wf(lane: Seq<Vehicle>, a: VehicleDirection, cfg: Config, last_id: u64) -> bool {
    &&& forall|j: int|
        0 <= j < lane.len() ==> {
            &&& (#[trigger] lane[j]).origin == a
            &&& lane[j].wf(cfg)
            &&& lane[j].id <= last_id
        }
    &&& forall|j: int, k: int| 0 <= j < k < lane.len() ==> lane[j].id < lane[k].id
}

/// No vehicle of `l1` shares its id with a vehicle of `l2`.
pub open spec fn ids_apart(l1: Seq<Vehicle>, l2: Seq<Vehicle>) -> bool {
    forall|j: int, k: int| 0 <= j < l1.len() && 0 <= k < l2.len() ==> #[trigger] l1[j].id != #[trigger] l2[k].id
}

/// Every id of `later` is an id of `earlier`.
pub open spec fn ids_from(later: Seq<Vehicle>, earlier: Seq<Vehicle>) -> bool {
    forall|j: int| 0 <= j < later.len() ==> exists|k: int| 0 <= k < earlier.len() && #[trigger] later[j].id == #[trigger] earlier[k].id
}

/// The vehicles, outcomes included, that one tick leaves of the first `n`
/// vehicles of the snapshot `snap`, in order, with the ids of those that
/// wait at the light and of those inside the junction box.
pub open spec fn ticked(snap: Seq<Vehicle>, cfg: Config, green: bool, n: int) -> (
    Seq<Vehicle>,
    Seq<u64>,
    Seq<u64>,
)
    decreases n,
{
    if n <= 0 {
        (Seq::empty(), Seq::empty(), Seq::empty())
    } else {
        let prev = ticked(snap, cfg, green, n - 1);
        let (v, o) = snap[n - 1].stepped(cfg, green, snap);
        if o == Outcome::Arrived || o == Outcome::Left {
            prev
        } else {
            (
                prev.0.push(v),
                if waits(snap[n - 1], o, cfg) {
                    prev.1.push(v.id)
                } else {
                    prev.1
                },
                if in_junction(v, cfg) {
                    prev.2.push(v.id)
                } else {
                    prev.2
                },
            )
        }
    }
}

/// A vehicle waits at its light when it stood still in a tick before it
/// was past the stop window.
pub open spec fn waits(v: Vehicle, o: Outcome, cfg: Config) -> bool {
    o == Outcome::Held && v.coord() <= -cfg.stop_line + cfg.stop_tolerance
}

/// The vehicle's centre lies in the junction box.
pub open spec fn in_junction(v: Vehicle, cfg: Config) -> bool {
    &&& -cfg.junction_half <= v.position.x <= cfg.junction_half
    &&& -cfg.junction_half <= v.position.y <= cfg.junction_half
}

/// One tick of a whole lane: each vehicle in spawn order advances against
/// a snapshot of the lane taken before the first one moved; those that
/// arrived or left the world are taken out, the others keep their order.
/// Returns the ids of the vehicles left waiting at the light and of those
/// inside the junction.
fn advance_lane(lane: &mut VecDeque<Vehicle>, a: Ghost<VehicleDirection>, cfg: &Config, green: bool, last_id: Ghost<u64>) -> (r: (
    Vec<u64>,
    Vec<u64>,
))
    requires
        cfg.wf(),
        lane_wf(old(lane)@, a@, *cfg, last_id@),
    ensures
        (final(lane)@, r.0@, r.1@) == ticked(old(lane)@, *cfg, green, old(lane)@.len() as int),
        lane_wf(final(lane)@, a@, *cfg, last_id@),
        ids_from(final(lane)@, old(lane)@),
{
    let mut snap: Vec<Vehicle> = Vec::new();
    let mut i: usize = 0;
    while i < lane.len()
        invariant
            i <= lane.len(),
            snap@ == lane@.subrange(0, i as int),
        decreases lane.len() - i,
    {
        snap.push(lane[i]);
        i = i + 1;
    }
    assert(snap@ == lane@);
    let mut kept: VecDeque<Vehicle> = VecDeque::new();
    let mut waiting: Vec<u64> = Vec::new();
    let mut inside: Vec<u64> = Vec::new();
    let mut i: usize = 0;
    while i < snap.len()
        invariant
            cfg.wf(),
            lane_wf(snap@, a@, *cfg, last_id@),
            i <= snap.len(),
            (kept@, waiting@, inside@) == ticked(snap@, *cfg, green, i as int),
            lane_wf(kept@, a@, *cfg, last_id@),
            forall|j: int, k: int|
                0 <= j < kept.len() && i <= k < snap.len() ==> kept[j].id < snap[k].id,
            ids_from(kept@, snap@),
        decreases snap.len() - i,
    {
        let mut v = snap[i];
        let o = v.advance(cfg, green, &snap);
        if o != Outcome::Arrived && o != Outcome::Left {
            let stopped = match o {
                Outcome::Held => true,
                _ => false,
            };
            if stopped && snap[i].approach_coord(cfg) <= -cfg.stop_line + cfg.stop_tolerance {
                waiting.push(v.id);
            }
            let j = cfg.junction_half;
            if -j <= v.position.x && v.position.x <= j && -j <= v.position.y && v.position.y <= j {
                inside.push(v.id);
            }
            let ghost before = kept@;
            kept.push_back(v);
            assert forall|j: int| 0 <= j < kept.len() implies exists|k: int|
                0 <= k < snap.len() && #[trigger] kept@[j].id == #[trigger] snap@[k].id by {
                if j < before.len() {
                    assert(kept@[j] == before[j]);
                } else {
                    assert(kept@[j].id == snap@[i as int].id);
                }
            }
        }
        i = i + 1;
    }
    *lane = kept;
    (waiting, inside)
}

/// What a tick of the first `n` vehicles of `snap` keeps, said directly:
/// each vehicle as it is after its step, for those that neither arrived nor
/// left, in lane order.
pub open spec fn kept_after(snap: Seq<Vehicle>, cfg: Config, green: bool, n: int) -> Seq<Vehicle> {
    Seq::new(n as nat, |k: int| snap[k].stepped(cfg, green, snap)).filter_map(
        |p: (Vehicle, Outcome)|
            if p.1 == Outcome::Moved || p.1 == Outcome::Held {
                Some(p.0)
            } else {
                None
            },
    )
}

/// The lane that a tick leaves is `kept_after`: the stepped vehicles that
/// neither arrived nor left, in their order.
pub proof fn lemma_ticked_keeps_the_rest(snap: Seq<Vehicle>, cfg: Config, green: bool, n: int)
    requires
        0 <= n <= snap.len(),
    ensures
        ticked(snap, cfg, green, n).0 == kept_after(snap, cfg, green, n),
    decreases n,
{
    if n > 0 {
        lemma_ticked_keeps_the_rest(snap, cfg, green, n - 1);
        let all = Seq::new(n as nat, |k: int| snap[k].stepped(cfg, green, snap));
        assert(all.drop_last() =~= Seq::new((n - 1) as nat, |k: int| snap[k].stepped(cfg, green, snap)));
        let p = snap[n - 1].stepped(cfg, green, snap);
        assert(all.last() == p);
        if p.1 == Outcome::Moved || p.1 == Outcome::Held {
            assert(ticked(snap, cfg, green, n).0 =~= kept_after(snap, cfg, green, n));
        }
    }
}

/// No id occurs twice in `s`.
pub open spec fn no_dup(s: Seq<u64>) -> bool {
    forall|i: int, j: int| 0 <= i < j < s.len() ==> s[i] != s[j]
}

/// `x` is the id of a vehicle of `lane`.
pub open spec fn id_in(x: u64, lane: Seq<Vehicle>) -> bool {
    exists|k: int| 0 <= k < lane.len() && #[trigger] lane[k].id == x
}

/// The ids that a lane tick reports, of waiting vehicles and of vehicles
/// in the junction, come from the lane, in increasing order when the
/// lane's ids increase.
pub proof fn lemma_ticked_ids(snap: Seq<Vehicle>, cfg: Config, green: bool, n: int)
    requires
        0 <= n <= snap.len(),
        forall|j: int, k: int| 0 <= j < k < snap.len() ==> snap[j].id < snap[k].id,
    ensures
        ({
            let t = ticked(snap, cfg, green, n);
            &&& forall|i: int, j: int| 0 <= i < j < t.1.len() ==> t.1[i] < t.1[j]
            &&& forall|i: int, j: int| 0 <= i < j < t.2.len() ==> t.2[i] < t.2[j]
            &&& forall|i: int, k: int| 0 <= i < t.1.len() && n <= k < snap.len() ==> t.1[i] < snap[k].id
            &&& forall|i: int, k: int| 0 <= i < t.2.len() && n <= k < snap.len() ==> t.2[i] < snap[k].id
            &&& forall|i: int| 0 <= i < t.1.len() ==> id_in(#[trigger] t.1[i], snap)
            &&& forall|i: int| 0 <= i < t.2.len() ==> id_in(#[trigger] t.2[i], snap)
        }),
    decreases n,
{
    if n > 0 {
        lemma_ticked_ids(snap, cfg, green, n - 1);
        let t = ticked(snap, cfg, green, n);
        let p = ticked(snap, cfg, green, n - 1);
        let x = snap[n - 1].id;
        assert(snap[n - 1].stepped(cfg, green, snap).0.id == x);
        assert(id_in(x, snap));
        assert forall|i: int| 0 <= i < t.1.len() implies id_in(#[trigger] t.1[i], snap) by {
            if i < p.1.len() {
                assert(t.1[i] == p.1[i]);
            }
        }
        assert forall|i: int| 0 <= i < t.2.len() implies id_in(#[trigger] t.2[i], snap) by {
            if i < p.2.len() {
                assert(t.2[i] == p.2[i]);
            }
        }
    }
}

impl TrafficLanes {
    /// The last id handed out; the next vehicle gets the one after it.
    pub open spec fn last_id(&self) -> u64 {
        self.vehicle_id_counter
    }

    /// The lane of the vehicles that came from `a`.
    pub open spec fn lane_of(&self, a: VehicleDirection) -> Seq<Vehicle> {
        match a {
            VehicleDirection::North => self.up@,
            VehicleDirection::South => self.bottom@,
            VehicleDirection::East => self.right@,
            VehicleDirection::West => self.left@,
        }
    }

    /// Every lane holds only vehicles from its own approach, with
    /// increasing ids that the counter has already handed out; no id is
    /// in two lanes.
    #[verifier::opaque]
    pub open spec fn wf(&self, cfg: Config) -> bool {
        &&& ids_apart(self.up@, self.bottom@)
        &&& ids_apart(self.up@, self.right@)
        &&& ids_apart(self.up@, self.left@)
        &&& ids_apart(self.bottom@, self.right@)
        &&& ids_apart(self.bottom@, self.left@)
        &&& ids_apart(self.right@, self.left@)
        &&& lane_wf(self.up@, VehicleDirection::North, cfg, self.last_id())
        &&& lane_wf(self.bottom@, VehicleDirection::South, cfg, self.last_id())
        &&& lane_wf(self.right@, VehicleDirection::East, cfg, self.last_id())
        &&& lane_wf(self.left@, VehicleDirection::West, cfg, self.last_id())
    }

    /// Four empty lanes; no id handed out yet.
    pub fn new() -> (r: TrafficLanes)
        ensures
            forall|cfg: Config| #[trigger] r.wf(cfg),
            r.last_id() == 0,
            forall|a: VehicleDirection| #[trigger] r.lane_of(a).len() == 0,
    {
        reveal(TrafficLanes::wf);
        TrafficLanes {
            left: VecDeque::new(),
            right: VecDeque::new(),
            bottom: VecDeque::new(),
            up: VecDeque::new(),
            vehicle_id_counter: 0,
        }
    }

    /// Hands out the next id.
    fn get_next_vehicle_id(&mut self) -> (r: u64)
        requires
            old(self).last_id() < u64::MAX,
        ensures
            r == old(self).last_id() + 1,
            final(self).last_id() == r,
            final(self).up == old(self).up,
            final(self).bottom == old(self).bottom,
            final(self).left == old(self).left,
            final(self).right == old(self).right,
    {
        self.vehicle_id_counter = self.vehicle_id_counter + 1;
        self.vehicle_id_counter
    }

    /// The lane of the vehicles that came from `a`.
    pub fn lane(&self, a: VehicleDirection) -> (r: &VecDeque<Vehicle>)
        ensures
            r@ == self.lane_of(a),
    {
        match a {
            VehicleDirection::North => &self.up,
            VehicleDirection::South => &self.bottom,
            VehicleDirection::East => &self.right,
            VehicleDirection::West => &self.left,
        }
    }

    /// Appends a new vehicle with the next id, coming from `a` with the
    /// manoeuvre `intent`, when the lane admits it and an id is left;
    /// otherwise changes nothing.
    pub fn spawn_vehicle(&mut self, a: VehicleDirection, intent: Direction, cfg: &Config)
        requires
            cfg.wf(),
            old(self).wf(*cfg),
        ensures
            final(self).wf(*cfg),
            if admits(old(self).lane_of(a), *cfg) && old(self).last_id() < u64::MAX {
                &&& final(self).last_id() == old(self).last_id() + 1
                &&& final(self).lane_of(a) == old(self).lane_of(a).push(
                    spawned(final(self).last_id(), a, intent, *cfg),
                )
                &&& forall|b: VehicleDirection|
                    b != a ==> #[trigger] final(self).lane_of(b) == old(self).lane_of(b)
            } else {
                *final(self) == *old(self)
            },
    {
        reveal(TrafficLanes::wf);
        let admitted = can_spawn_vehicle(self.lane(a), cfg);
        if !admitted || self.vehicle_id_counter == u64::MAX {
            return;
        }
        let id = self.get_next_vehicle_id();
        let v = Vehicle::new(id, a, intent, cfg);
        match a {
            VehicleDirection::North => self.up.push_back(v),
            VehicleDirection::South => self.bottom.push_back(v),
            VehicleDirection::East => self.right.push_back(v),
            VehicleDirection::West => self.left.push_back(v),
        }
    }

    /// The number of vehicles in all four lanes.
    pub fn total_vehicle_count(&self) -> (r: usize)
        requires
            self.up.len() + self.bottom.len() + self.left.len() + self.right.len() <= usize::MAX,
        ensures
            r == self.up.len() + self.bottom.len() + self.left.len() + self.right.len(),
    {
        self.up.len() + self.bottom.len() + self.left.len() + self.right.len()
    }

    /// The number of vehicles in each lane: north, south, west, east.
    pub fn get_lane_counts(&self) -> (r: (usize, usize, usize, usize))
        ensures
            r == (self.up.len(), self.bottom.len(), self.left.len(), self.right.len()),
    {
        (self.up.len(), self.bottom.len(), self.left.len(), self.right.len())
    }

    /// One tick of the lane of `a`, its light `green` or red (see
    /// `ticked`). Returns the ids of the vehicles of that lane left waiting
    /// at the light and of those inside the junction box.
    pub fn tick(&mut self, a: VehicleDirection, cfg: &Config, green: bool) -> (r: (
        Vec<u64>,
        Vec<u64>,
    ))
        requires
            cfg.wf(),
            old(self).wf(*cfg),
        ensures
            final(self).wf(*cfg),
            final(self).last_id() == old(self).last_id(),
            (final(self).lane_of(a), r.0@, r.1@) == ticked(
                old(self).lane_of(a),
                *cfg,
                green,
                old(self).lane_of(a).len() as int,
            ),
            forall|b: VehicleDirection|
                b != a ==> #[trigger] final(self).lane_of(b) == old(self).lane_of(b),
    {
        reveal(TrafficLanes::wf);
        let last = Ghost(self.vehicle_id_counter);
        match a {
            VehicleDirection::North => advance_lane(&mut self.up, Ghost(a), cfg, green, last),
            VehicleDirection::South => advance_lane(&mut self.bottom, Ghost(a), cfg, green, last),
            VehicleDirection::East => advance_lane(&mut self.right, Ghost(a), cfg, green, last),
            VehicleDirection::West => advance_lane(&mut self.left, Ghost(a), cfg, green, last),
        }
    }
}

} // verus!
