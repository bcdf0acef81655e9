use std::collections::VecDeque;
use vstd::prelude::*;

use crate::config::{Config, Direction};
use crate::road::admits;
use crate::traffic_lane::{id_in, lemma_ticked_ids, no_dup, ticked, TrafficLanes};
use crate::traffic_light::TrafficLight;
use crate::vehicle::{spawned, Vehicle, VehicleDirection};

verus! {

/// The approaches in the order the lights, the waiting registry and the
/// arbitration's tie-break use: north, south, east, west.
pub open spec fn index_of(a: VehicleDirection) -> int {
    match a {
        VehicleDirection::North => 0,
        VehicleDirection::South => 1,
        VehicleDirection::East => 2,
        VehicleDirection::West => 3,
    }
}

impl VehicleDirection {
    /// The position of this approach among north, south, east, west.
    pub fn index(self) -> (r: usize)
        ensures
            r == index_of(self),
    {
        match self {
            VehicleDirection::North => 0,
            VehicleDirection::South => 1,
            VehicleDirection::East => 2,
            VehicleDirection::West => 3,
        }
    }
}

/// Approach `i` wins the arbitration over the waiting `counts`: it has
/// someone waiting, strictly more than every approach before it and at
/// least as many as every approach after it (ties go to the first).
pub open spec fn wins(counts: Seq<int>, i: int) -> bool {
    &&& counts[i] > 0
    &&& forall|j: int| 0 <= j < i ==> counts[j] < counts[i]
    &&& forall|j: int| i < j < counts.len() ==> counts[j] <= counts[i]
}

/// The lights after one arbitration pass: unchanged while the junction is
/// occupied; otherwise green exactly for the winner, all red when nobody
/// waits.
pub open spec fn arbitrate(lights: Seq<bool>, counts: Seq<int>, occupied: bool) -> Seq<bool> {
    if occupied {
        lights
    } else {
        Seq::new(counts.len(), |i: int| wins(counts, i))
    }
}

/// The whole intersection: the geometry, the four lanes, one light per
/// approach, the ids waiting at each light and the ids inside the junction.
pub struct Intersection {
    pub config: Config,
    pub lanes: TrafficLanes,
    /// Indexed as `VehicleDirection::index`.
    pub lights: Vec<TrafficLight>,
    /// Ids of the vehicles waiting at each light, indexed as `lights`.
    pub waiting_lane: Vec<Vec<u64>>,
    /// Ids of the vehicles inside the junction box.
    pub junction: Vec<u64>,
}

impl Intersection {
    pub open spec fn wf(&self) -> bool {
        &&& self.config.wf()
        &&& self.lanes.wf(self.config)
        &&& self.lights.len() == 4
        &&& self.waiting_lane.len() == 4
        &&& forall|i: int| 0 <= i < 4 ==> no_dup(#[trigger] self.waiting_lane@[i]@)
        &&& no_dup(self.junction@)
    }

    /// Which lights are green, indexed as `VehicleDirection::index`.
    pub open spec fn greens(&self) -> Seq<bool> {
        self.lights@.map_values(|l: TrafficLight| l.state)
    }

    /// How many vehicles wait at each light.
    pub open spec fn counts(&self) -> Seq<int> {
        self.waiting_lane@.map_values(|w: Vec<u64>| w@.len() as int)
    }

    pub open spec fn occupied(&self) -> bool {
        self.junction@.len() > 0
    }

    /// An empty intersection with every light red.
    pub fn new(config: Config) -> (r: Intersection)
        requires
            config.wf(),
        ensures
            r.wf(),
            r.config == config,
            r.lanes.last_id() == 0,
            forall|a: VehicleDirection| #[trigger] r.lanes.lane_of(a).len() == 0,
            forall|i: int| 0 <= i < 4 ==> !#[trigger] r.greens()[i],
            forall|i: int| 0 <= i < 4 ==> #[trigger] r.counts()[i] == 0,
            !r.occupied(),
    {
        let mut lights: Vec<TrafficLight> = Vec::new();
        let mut waiting_lane: Vec<Vec<u64>> = Vec::new();
        let mut i: usize = 0;
        while i < 4
            invariant
                i <= 4,
                lights.len() == i,
                waiting_lane.len() == i,
                forall|j: int| 0 <= j < i ==> !(#[trigger] lights[j]).state,
                forall|j: int| 0 <= j < i ==> (#[trigger] waiting_lane[j])@.len() == 0,
            decreases 4 - i,
        {
            lights.push(TrafficLight::new());
            waiting_lane.push(Vec::new());
            i = i + 1;
        }
        let r = Intersection {
            config,
            lanes: TrafficLanes::new(),
            lights,
            waiting_lane,
            junction: Vec::new(),
        };
        assert(r.lanes.wf(config));
        r
    }

    /// Arbitration: while a vehicle is inside the junction nothing changes;
    /// otherwise the approach with the most waiting vehicles gets green and
    /// all others red (ties go to the first of north, south, east, west),
    /// and all are red when nobody waits.
    pub fn update_lights(&mut self)
        requires
            old(self).wf(),
        ensures
            final(self).wf(),
            final(self).greens() == arbitrate(old(self).greens(), old(self).counts(), old(self).occupied()),
            final(self).config == old(self).config,
            final(self).lanes == old(self).lanes,
            final(self).waiting_lane == old(self).waiting_lane,
            final(self).junction == old(self).junction,
    {
        if self.junction.len() > 0 {
            return;
        }
        let ghost counts = self.counts();
        let mut max_lane: Option<usize> = None;
        let mut max_count: usize = 0;
        let mut i: usize = 0;
        while i < 4
            invariant
                self.wf(),
                counts == self.counts(),
                counts.len() == 4,
                i <= 4,
                max_lane is None ==> max_count == 0 && forall|j: int| 0 <= j < i ==> #[trigger] counts[j] == 0,
                max_lane matches Some(k) ==> {
                    &&& k < i
                    &&& counts[k as int] == max_count
                    &&& max_count > 0
                    &&& forall|j: int| 0 <= j < k ==> #[trigger] counts[j] < max_count
                    &&& forall|j: int| 0 <= j < i ==> #[trigger] counts[j] <= max_count
                },
            decreases 4 - i,
        {
            let count = self.waiting_lane[i].len();
            if count > max_count {
                max_count = count;
                max_lane = Some(i);
            }
            i = i + 1;
        }
        let ghost before = self.greens();
        let mut i: usize = 0;
        while i < 4
            invariant
                self.wf(),
                counts == self.counts(),
                counts.len() == 4,
                i <= 4,
                forall|j: int| 0 <= j < i ==> #[trigger] self.greens()[j] == (max_lane == Some(j as usize)),
                max_lane is None ==> max_count == 0 && forall|j: int| 0 <= j < 4 ==> #[trigger] counts[j] == 0,
                max_lane matches Some(k) ==> {
                    &&& k < 4
                    &&& counts[k as int] == max_count
                    &&& max_count > 0
                    &&& forall|j: int| 0 <= j < k ==> #[trigger] counts[j] < max_count
                    &&& forall|j: int| 0 <= j < 4 ==> #[trigger] counts[j] <= max_count
                },
                self.config == old(self).config,
                self.lanes == old(self).lanes,
                self.waiting_lane == old(self).waiting_lane,
                self.junction == old(self).junction,
            decreases 4 - i,
        {
            let green = match max_lane {
                Some(k) => k == i,
                None => false,
            };
            let ghost prev = self.lights@;
            let ghost prev_greens = self.greens();
            self.lights.set(i, TrafficLight { state: green });
            assert forall|j: int| 0 <= j <= i implies #[trigger] self.greens()[j] == (max_lane
                == Some(j as usize)) by {
                assert(self.greens()[j] == self.lights@[j].state);
                if j < i {
                    assert(self.lights@[j] == prev[j]);
                    assert(prev_greens[j] == prev[j].state);
                    assert(prev_greens[j] == (max_lane == Some(j as usize)));
                } else {
                    assert(self.lights@[j].state == green);
                }
            }
            i = i + 1;
        }
        let ghost target = arbitrate(before, counts, false);
        assert forall|j: int| 0 <= j < 4 implies #[trigger] self.greens()[j] == target[j] by {
            if max_lane == Some(j as usize) {
                assert(wins(counts, j));
            } else if wins(counts, j) {
                match max_lane {
                    Some(k) => {
                        if (j as int) < (k as int) {
                            assert(counts[k as int] <= counts[j]);
                        } else {
                            assert(counts[k as int] < counts[j]);
                        }
                    },
                    None => {},
                }
            }
        }
        assert(self.greens() =~= target);
    }

    /// Runs the lane of `a` for one tick under its current light, records
    /// who waits at that light and appends who is inside the junction to
    /// `junction`.
    fn tick_approach(&mut self, a: VehicleDirection, junction: &mut Vec<u64>)
        requires
            old(self).wf(),
        ensures
            final(self).wf(),
            final(self).config == old(self).config,
            final(self).lights == old(self).lights,
            final(self).junction == old(self).junction,
            final(self).lanes.last_id() == old(self).lanes.last_id(),
            ({
                let t = ticked(
                    old(self).lanes.lane_of(a),
                    old(self).config,
                    old(self).greens()[index_of(a)],
                    old(self).lanes.lane_of(a).len() as int,
                );
                &&& final(self).lanes.lane_of(a) == t.0
                &&& final(self).waiting_lane@ == old(self).waiting_lane@.update(
                    index_of(a),
                    final(self).waiting_lane@[index_of(a)],
                )
                &&& final(self).waiting_lane@[index_of(a)]@ == t.1
                &&& final(junction)@ == old(junction)@ + t.2
            }),
            forall|b: VehicleDirection|
                b != a ==> #[trigger] final(self).lanes.lane_of(b) == old(self).lanes.lane_of(b),
    {
        let idx = a.index();
        let green = self.lights[idx].state;
        let cfg = self.config;
        proof {
            lemma_lane_ids_increase(self.lanes, cfg, a);
            lemma_ticked_ids(self.lanes.lane_of(a), cfg, green, self.lanes.lane_of(a).len() as int);
        }
        let ghost t = ticked(self.lanes.lane_of(a), cfg, green, self.lanes.lane_of(a).len() as int);
        let (waiting, mut inside) = self.lanes.tick(a, &cfg, green);
        let ghost before = self.waiting_lane@;
        let ghost wv = waiting@;
        assert(wv == t.1);
        assert forall|i: int, j: int| 0 <= i < j < wv.len() implies wv[i] != wv[j] by {
            assert(t.1[i] < t.1[j]);
        }
        self.waiting_lane.set(idx, waiting);
        assert forall|i: int| 0 <= i < 4 implies no_dup(#[trigger] self.waiting_lane@[i]@) by {
            if i != idx {
                assert(self.waiting_lane@[i] == before[i]);
            } else {
                assert(self.waiting_lane@[i]@ == wv);
            }
        }
        junction.append(&mut inside);
    }

    /// One simulation step: arbitration first, then each lane in turn
    /// (north, south, east, west) under its light; the waiting registry and
    /// the junction set are rebuilt from what the lanes report.
    pub fn tick(&mut self)
        requires
            old(self).wf(),
        ensures
            final(self).wf(),
            final(self).config == old(self).config,
            final(self).lanes.last_id() == old(self).lanes.last_id(),
            final(self).greens() == arbitrate(old(self).greens(), old(self).counts(), old(self).occupied()),
            forall|a: VehicleDirection| #[trigger] final(self).lanes.lane_of(a) == ticked(
                old(self).lanes.lane_of(a),
                old(self).config,
                final(self).greens()[index_of(a)],
                old(self).lanes.lane_of(a).len() as int,
            ).0,
            forall|a: VehicleDirection| #[trigger] final(self).waiting_lane@[index_of(a)]@ == ticked(
                old(self).lanes.lane_of(a),
                old(self).config,
                final(self).greens()[index_of(a)],
                old(self).lanes.lane_of(a).len() as int,
            ).1,
            final(self).junction@ == old(self).junction_after(final(self).greens()),
    {
        self.update_lights();
        let mut junction: Vec<u64> = Vec::new();
        self.tick_approach(VehicleDirection::North, &mut junction);
        self.tick_approach(VehicleDirection::South, &mut junction);
        self.tick_approach(VehicleDirection::East, &mut junction);
        self.tick_approach(VehicleDirection::West, &mut junction);
        self.junction = junction;
        proof {
            lemma_junction_distinct(*old(self), self.greens());
        }
    }

    /// The junction set that a tick of every lane under the lights `greens`
    /// reports: north's, south's, east's and west's ids, in that order.
    pub open spec fn junction_after(&self, greens: Seq<bool>) -> Seq<u64> {
        let t = |a: VehicleDirection|
            ticked(
                self.lanes.lane_of(a),
                self.config,
                greens[index_of(a)],
                self.lanes.lane_of(a).len() as int,
            ).2;
        t(VehicleDirection::North) + t(VehicleDirection::South) + t(VehicleDirection::East) + t(
            VehicleDirection::West,
        )
    }

    /// Asks for a vehicle on the approach `a`, with the manoeuvre `intent`,
    /// or one drawn at random when none is given. The lane takes it when it
    /// admits a vehicle and an id is left; otherwise the request is dropped
    /// without a trace.
    pub fn spawn(&mut self, a: VehicleDirection, intent: Option<Direction>)
        requires
            old(self).wf(),
        ensures
            final(self).wf(),
            final(self).config == old(self).config,
            final(self).lights == old(self).lights,
            final(self).waiting_lane == old(self).waiting_lane,
            final(self).junction == old(self).junction,
            if admits(old(self).lanes.lane_of(a), old(self).config) && old(self).lanes.last_id()
                < u64::MAX {
                &&& final(self).lanes.last_id() == old(self).lanes.last_id() + 1
                &&& exists|d: Direction|
                    {
                        &&& (intent matches Some(i) ==> d == i)
                        &&& final(self).lanes.lane_of(a) == old(self).lanes.lane_of(a).push(
                            #[trigger] spawned(final(self).lanes.last_id(), a, d, old(self).config),
                        )
                    }
                &&& forall|b: VehicleDirection|
                    b != a ==> #[trigger] final(self).lanes.lane_of(b) == old(
                        self,
                    ).lanes.lane_of(b)
            } else {
                final(self).lanes == old(self).lanes
            },
    {
        let d = match intent {
            Some(i) => i,
            None => Direction::random(),
        };
        let cfg = self.config;
        let ghost before = self.lanes;
        self.lanes.spawn_vehicle(a, d, &cfg);
        assert(admits(before.lane_of(a), cfg) && before.last_id() < u64::MAX ==> self.lanes.lane_of(
            a,
        ) == before.lane_of(a).push(spawned(self.lanes.last_id(), a, d, cfg)));
    }

    /// Manual override: makes the light of `a` green or red. The next
    /// arbitration overwrites it unless the junction is occupied.
    pub fn set_light(&mut self, a: VehicleDirection, green: bool)
        requires
            old(self).wf(),
        ensures
            final(self).wf(),
            final(self).greens() == old(self).greens().update(index_of(a), green),
            final(self).config == old(self).config,
            final(self).lanes == old(self).lanes,
            final(self).waiting_lane == old(self).waiting_lane,
            final(self).junction == old(self).junction,
    {
        self.lights.set(a.index(), TrafficLight { state: green });
        assert(self.greens() =~= old(self).greens().update(index_of(a), green));
    }

    /// Manual override: flips the light of `a`.
    pub fn change_state(&mut self, a: VehicleDirection)
        requires
            old(self).wf(),
        ensures
            final(self).wf(),
            final(self).greens() == old(self).greens().update(
                index_of(a),
                !old(self).greens()[index_of(a)],
            ),
            final(self).config == old(self).config,
            final(self).lanes == old(self).lanes,
            final(self).waiting_lane == old(self).waiting_lane,
            final(self).junction == old(self).junction,
    {
        let mut light = self.lights[a.index()];
        light.change_state();
        self.lights.set(a.index(), light);
        assert(self.greens() =~= old(self).greens().update(
            index_of(a),
            !old(self).greens()[index_of(a)],
        ));
    }

    /// Whether the light of `a` is green.
    pub fn light_is_green(&self, a: VehicleDirection) -> (r: bool)
        requires
            self.wf(),
        ensures
            r == self.greens()[index_of(a)],
    {
        self.lights[a.index()].state
    }

    /// The vehicles of the lane of `a`, in spawn order.
    pub fn vehicles(&self, a: VehicleDirection) -> (r: &VecDeque<Vehicle>)
        ensures
            r@ == self.lanes.lane_of(a),
    {
        self.lanes.lane(a)
    }

    /// How many vehicles the lane of `a` holds.
    pub fn lane_count(&self, a: VehicleDirection) -> (r: usize)
        ensures
            r == self.lanes.lane_of(a).len(),
    {
        self.lanes.lane(a).len()
    }

    /// How many vehicles wait at the light of `a`.
    pub fn waiting_count(&self, a: VehicleDirection) -> (r: usize)
        requires
            self.wf(),
        ensures
            r == self.counts()[index_of(a)],
    {
        self.waiting_lane[a.index()].len()
    }

    /// Whether some vehicle is inside the junction box.
    pub fn is_occupied(&self) -> (r: bool)
        ensures
            r == self.occupied(),
    {
        self.junction.len() > 0
    }
}

/// While the junction is occupied an arbitration pass leaves the lights as
/// they are, so two passes in a row give the same lights.
pub proof fn lemma_occupied_arbitration_is_stable(lights: Seq<bool>, counts: Seq<int>)
    ensures
        arbitrate(lights, counts, true) == lights,
        arbitrate(arbitrate(lights, counts, true), counts, true) == arbitrate(lights, counts, true),
{
}

/// Arbitration is idempotent: a second pass over the same waiting counts
/// and occupancy gives the lights that the first pass gave.
pub proof fn lemma_arbitration_idempotent(lights: Seq<bool>, counts: Seq<int>, occupied: bool)
    ensures
        arbitrate(arbitrate(lights, counts, occupied), counts, occupied) == arbitrate(
            lights,
            counts,
            occupied,
        ),
{
}

/// At most one light is green after a pass over an unoccupied junction.
pub proof fn lemma_at_most_one_green(lights: Seq<bool>, counts: Seq<int>, i: int, j: int)
    requires
        0 <= i < j < counts.len(),
    ensures
        !(arbitrate(lights, counts, false)[i] && arbitrate(lights, counts, false)[j]),
{
}

/// The ids of each lane increase from front to back.
proof fn lemma_lane_ids_increase(lanes: TrafficLanes, cfg: Config, a: VehicleDirection)
    requires
        lanes.wf(cfg),
    ensures
        forall|j: int, k: int|
            0 <= j < k < lanes.lane_of(a).len() ==> lanes.lane_of(a)[j].id < lanes.lane_of(a)[k].id,
{
    reveal(TrafficLanes::wf);
}

/// Joining two id lists without a common id and without repeats gives a
/// list without repeats.
proof fn lemma_join_no_dup(a: Seq<u64>, b: Seq<u64>)
    requires
        no_dup(a),
        no_dup(b),
        forall|i: int, j: int| 0 <= i < a.len() && 0 <= j < b.len() ==> a[i] != b[j],
    ensures
        no_dup(a + b),
{
    let c = a + b;
    assert forall|i: int, j: int| 0 <= i < j < c.len() implies c[i] != c[j] by {
        if j < a.len() {
            assert(c[i] == a[i] && c[j] == a[j]);
        } else if i >= a.len() {
            assert(c[i] == b[i - a.len()] && c[j] == b[j - a.len()]);
        } else {
            assert(c[i] == a[i] && c[j] == b[j - a.len()]);
        }
    }
}

/// The junction set that a tick reports holds no id twice: each lane
/// reports its ids once, and no id is in two lanes.
proof fn lemma_junction_distinct(s: Intersection, greens: Seq<bool>)
    requires
        s.wf(),
        greens.len() == 4,
    ensures
        no_dup(s.junction_after(greens)),
{
    let cfg = s.config;
    let n = VehicleDirection::North;
    let so = VehicleDirection::South;
    let e = VehicleDirection::East;
    let w = VehicleDirection::West;
    lemma_lane_ids_increase(s.lanes, cfg, n);
    lemma_lane_ids_increase(s.lanes, cfg, so);
    lemma_lane_ids_increase(s.lanes, cfg, e);
    lemma_lane_ids_increase(s.lanes, cfg, w);
    lemma_ticked_ids(s.lanes.lane_of(n), cfg, greens[0], s.lanes.lane_of(n).len() as int);
    lemma_ticked_ids(s.lanes.lane_of(so), cfg, greens[1], s.lanes.lane_of(so).len() as int);
    lemma_ticked_ids(s.lanes.lane_of(e), cfg, greens[2], s.lanes.lane_of(e).len() as int);
    lemma_ticked_ids(s.lanes.lane_of(w), cfg, greens[3], s.lanes.lane_of(w).len() as int);
    reveal(TrafficLanes::wf);
    let tn = ticked(s.lanes.up@, cfg, greens[0], s.lanes.up@.len() as int).2;
    let ts = ticked(s.lanes.bottom@, cfg, greens[1], s.lanes.bottom@.len() as int).2;
    let te = ticked(s.lanes.right@, cfg, greens[2], s.lanes.right@.len() as int).2;
    let tw = ticked(s.lanes.left@, cfg, greens[3], s.lanes.left@.len() as int).2;
    let ab = tn + ts;
    let abc = ab + te;
    assert forall|i: int, j: int| 0 <= i < tn.len() && 0 <= j < ts.len() implies #[trigger] tn[i]
        != #[trigger] ts[j] by {
        assert(id_in(tn[i], s.lanes.up@));
        assert(id_in(ts[j], s.lanes.bottom@));
    }
    lemma_join_no_dup(tn, ts);
    assert forall|i: int, j: int| 0 <= i < ab.len() && 0 <= j < te.len() implies #[trigger] ab[i]
        != #[trigger] te[j] by {
        assert(id_in(te[j], s.lanes.right@));
        if i < tn.len() {
            assert(ab[i] == tn[i]);
            assert(id_in(tn[i], s.lanes.up@));
        } else {
            assert(ab[i] == ts[i - tn.len()]);
            assert(id_in(ts[i - tn.len()], s.lanes.bottom@));
        }
    }
    lemma_join_no_dup(ab, te);
    assert forall|i: int, j: int| 0 <= i < abc.len() && 0 <= j < tw.len() implies #[trigger] abc[i]
        != #[trigger] tw[j] by {
        assert(id_in(tw[j], s.lanes.left@));
        if i < tn.len() {
            assert(abc[i] == tn[i]);
            assert(id_in(tn[i], s.lanes.up@));
        } else if i < ab.len() {
            assert(abc[i] == ts[i - tn.len()]);
            assert(id_in(ts[i - tn.len()], s.lanes.bottom@));
        } else {
            assert(abc[i] == te[i - ab.len()]);
            assert(id_in(te[i - ab.len()], s.lanes.right@));
        }
    }
    lemma_join_no_dup(abc, tw);
    assert(s.junction_after(greens) == abc + tw);
}

} // verus!
