use vstd::prelude::*;

use crate::config::{Config, Direction, MAX_SETTING};

verus! {

/// A compass direction: the approach a vehicle comes from, or the way it is
/// heading. North is towards smaller `y`.
#[derive(Debug, Clone, Copy, PartialEq, Eq, Structural)]
pub enum VehicleDirection {
    North,
    South,
    East,
    West,
}

/// Whether a vehicle has made its one change of heading yet.
#[derive(Debug, Clone, Copy, PartialEq, Eq, Structural)]
pub enum TurnState {
    Approaching,
    Turned,
}

/// What one tick did to a vehicle.
#[derive(Debug, Clone, Copy, PartialEq, Eq, Structural)]
pub enum Outcome {
    /// It was already closer to its destination than the arrival
    /// threshold: drop it.
    Arrived,
    /// Its step took it out of the world: drop it.
    Left,
    /// It advanced by one step.
    Moved,
    /// It stood still.
    Held,
}

/// A point of the plane.
#[derive(Debug, Clone, Copy, PartialEq, Eq, Structural)]
pub struct Point {
    pub x: i64,
    pub y: i64,
}

/// An axis-aligned box: top-left corner, width and height.
#[derive(Debug, Clone, Copy, PartialEq, Eq, Structural)]
pub struct Rect {
    pub x: i64,
    pub y: i64,
    pub w: i64,
    pub h: i64,
}

#[derive(Debug, Clone, Copy, PartialEq, Eq, Structural)]
pub struct Vehicle {
    pub id: u64,
    /// Centre of the vehicle.
    pub position: Point,
    /// The point it is driving to; reaching it takes the vehicle away.
    pub target: Point,
    /// Distance covered per tick: zero when braked.
    pub speed: i64,
    /// The approach it entered from.
    pub origin: VehicleDirection,
    pub heading: VehicleDirection,
    pub intent: Direction,
    pub turn: TurnState,
}

/// The coordinate of `(x, y)` along the axis that points towards `d`.
pub open spec fn along(x: int, y: int, d: VehicleDirection) -> int {
    match d {
        VehicleDirection::North => -y,
        VehicleDirection::South => y,
        VehicleDirection::East => x,
        VehicleDirection::West => -x,
    }
}

/// The heading of a vehicle that entered from `origin`, before it turns.
pub open spec fn travel_of(origin: VehicleDirection) -> VehicleDirection {
    match origin {
        VehicleDirection::North => VehicleDirection::South,
        VehicleDirection::South => VehicleDirection::North,
        VehicleDirection::East => VehicleDirection::West,
        VehicleDirection::West => VehicleDirection::East,
    }
}

/// A quarter turn to the right of `d`.
pub open spec fn right_of(d: VehicleDirection) -> VehicleDirection {
    match d {
        VehicleDirection::North => VehicleDirection::East,
        VehicleDirection::East => VehicleDirection::South,
        VehicleDirection::South => VehicleDirection::West,
        VehicleDirection::West => VehicleDirection::North,
    }
}

/// A quarter turn to the left of `d`.
pub open spec fn left_of(d: VehicleDirection) -> VehicleDirection {
    match d {
        VehicleDirection::North => VehicleDirection::West,
        VehicleDirection::West => VehicleDirection::South,
        VehicleDirection::South => VehicleDirection::East,
        VehicleDirection::East => VehicleDirection::North,
    }
}

/// The heading after the manoeuvre `intent`, from heading `d`.
pub open spec fn turned_of(d: VehicleDirection, intent: Direction) -> VehicleDirection {
    match intent {
        Direction::Left => left_of(d),
        Direction::Up => d,
        Direction::Right => right_of(d),
    }
}

/// One step of `s` from `p` towards `d`.
pub open spec fn shifted(p: Point, d: VehicleDirection, s: int) -> (int, int) {
    match d {
        VehicleDirection::North => (p.x as int, p.y - s),
        VehicleDirection::South => (p.x as int, p.y + s),
        VehicleDirection::East => (p.x + s, p.y as int),
        VehicleDirection::West => (p.x - s, p.y as int),
    }
}

/// Where vehicles from `origin` enter: `reach` before the centre, half a
/// width to the right of the road's centre line.
pub open spec fn spawn_of(origin: VehicleDirection, cfg: Config) -> (int, int) {
    let o = cfg.half_width();
    let r = cfg.reach as int;
    match origin {
        VehicleDirection::North => (-o, -r),
        VehicleDirection::South => (o, r),
        VehicleDirection::West => (-r, o),
        VehicleDirection::East => (r, -o),
    }
}

/// The exit reached from `p` by driving towards `d`: the point `reach` past
/// the centre on that line.
pub open spec fn exit_of(p: Point, d: VehicleDirection, cfg: Config) -> (int, int) {
    let r = cfg.reach as int;
    match d {
        VehicleDirection::North => (p.x as int, -r),
        VehicleDirection::South => (p.x as int, r),
        VehicleDirection::East => (r, p.y as int),
        VehicleDirection::West => (-r, p.y as int),
    }
}

pub open spec fn inside(p: (int, int), cfg: Config) -> bool {
    -cfg.extent <= p.0 <= cfg.extent && -cfg.extent <= p.1 <= cfg.extent
}

pub open spec fn abs(a: int) -> int {
    if a < 0 {
        -a
    } else {
        a
    }
}

pub open spec fn as_int(p: Point) -> (int, int) {
    (p.x as int, p.y as int)
}

/// The vehicle that `Vehicle::new` makes.
pub open spec fn spawned(id: u64, origin: VehicleDirection, intent: Direction, cfg: Config) -> Vehicle {
    let p = spawn_of(origin, cfg);
    let start = Point { x: p.0 as i64, y: p.1 as i64 };
    let t = exit_of(start, travel_of(origin), cfg);
    Vehicle {
        id,
        position: start,
        target: Point { x: t.0 as i64, y: t.1 as i64 },
        speed: cfg.speed,
        origin,
        heading: travel_of(origin),
        intent,
        turn: TurnState::Approaching,
    }
}

impl Vehicle {
    /// The vehicle's numbers are small enough for the arithmetic of a tick.
    pub open spec fn wf(&self, cfg: Config) -> bool {
        &&& inside(as_int(self.position), cfg)
        &&& inside(as_int(self.target), cfg)
        &&& 0 <= self.speed <= MAX_SETTING
    }

    /// The coordinate along the axis of the vehicle's approach; it grows as
    /// the vehicle drives in. The stop line lies at `-stop_line`.
    pub open spec fn coord(&self) -> int {
        along(self.position.x as int, self.position.y as int, travel_of(self.origin))
    }

    /// How far the vehicle has come from its spawn point along its approach.
    pub open spec fn progress(&self, cfg: Config) -> int {
        self.coord() + cfg.reach
    }

    pub open spec fn in_stop_window(&self, cfg: Config) -> bool {
        -cfg.stop_line - cfg.stop_tolerance <= self.coord() <= -cfg.stop_line + cfg.stop_tolerance
    }

    pub open spec fn turn_due(&self, cfg: Config) -> bool {
        self.turn == TurnState::Approaching && self.coord() >= -cfg.stop_line
            + cfg.turn_depth_of(self.intent)
    }

    /// The heading the vehicle moves along if it moves this tick.
    pub open spec fn next_heading(&self, cfg: Config) -> VehicleDirection {
        if self.turn_due(cfg) {
            turned_of(self.heading, self.intent)
        } else {
            self.heading
        }
    }

    /// How far `o` is in front of this vehicle, looking towards `h`.
    pub open spec fn gap(&self, o: Vehicle, h: VehicleDirection) -> int {
        along(o.position.x - self.position.x, o.position.y - self.position.y, h)
    }

    /// How far `o` is to the right of this vehicle, looking towards `h`.
    pub open spec fn offset(&self, o: Vehicle, h: VehicleDirection) -> int {
        along(o.position.x - self.position.x, o.position.y - self.position.y, right_of(h))
    }

    /// `o` is another vehicle, strictly in front of this one within half a
    /// width of its line, looking towards `h`.
    pub open spec fn is_ahead(&self, o: Vehicle, h: VehicleDirection, cfg: Config) -> bool {
        &&& o.id != self.id
        &&& abs(self.offset(o, h)) <= cfg.half_width()
        &&& self.gap(o, h) > 0
    }

    /// `o` is ahead on the axis of this vehicle's approach, and closer on
    /// that axis than the headway plus one step of this vehicle.
    pub open spec fn blocks(&self, o: Vehicle, cfg: Config) -> bool {
        let h = travel_of(self.origin);
        self.is_ahead(o, h, cfg) && self.gap(o, h) < cfg.headway() + self.speed
    }

    /// The squared straight-line distance from this vehicle to `o`.
    pub open spec fn dist2(&self, o: Vehicle) -> int {
        let dx = o.position.x - self.position.x;
        let dy = o.position.y - self.position.y;
        dx * dx + dy * dy
    }

    pub open spec fn blocked(&self, lane: Seq<Vehicle>, cfg: Config) -> bool {
        exists|j: int| 0 <= j < lane.len() && #[trigger] self.blocks(lane[j], cfg)
    }

    pub open spec fn arrived(&self, cfg: Config) -> bool {
        let dx = self.target.x - self.position.x;
        let dy = self.target.y - self.position.y;
        dx * dx + dy * dy < cfg.arrive_threshold * cfg.arrive_threshold
    }

    /// The vehicle after it has driven one step: turned first, if the turn
    /// is due, then moved along its heading.
    pub open spec fn driven(&self, cfg: Config) -> Vehicle {
        let h = self.next_heading(cfg);
        let p = shifted(self.position, h, self.speed as int);
        Vehicle {
            position: Point { x: p.0 as i64, y: p.1 as i64 },
            heading: h,
            turn: if self.turn_due(cfg) {
                TurnState::Turned
            } else {
                self.turn
            },
            target: if self.turn_due(cfg) {
                let t = exit_of(self.position, h, cfg);
                Point { x: t.0 as i64, y: t.1 as i64 }
            } else {
                self.target
            },
            ..*self
        }
    }

    /// One tick of this vehicle against the snapshot `lane` of its lane,
    /// with its light green or red.
    pub open spec fn stepped(&self, cfg: Config, green: bool, lane: Seq<Vehicle>) -> (
        Vehicle,
        Outcome,
    ) {
        if self.arrived(cfg) {
            (*self, Outcome::Arrived)
        } else if self.in_stop_window(cfg) && !green {
            (*self, Outcome::Held)
        } else if self.blocked(lane, cfg) || self.speed <= 0 {
            (*self, Outcome::Held)
        } else {
            let d = self.driven(cfg);
            (
                d,
                if inside(as_int(d.position), cfg) {
                    Outcome::Moved
                } else {
                    Outcome::Left
                },
            )
        }
    }
}

impl VehicleDirection {
    /// The heading of a vehicle that entered from `origin`.
    pub fn travel(origin: VehicleDirection) -> (r: VehicleDirection)
        ensures
            r == travel_of(origin),
    {
        match origin {
            VehicleDirection::North => VehicleDirection::South,
            VehicleDirection::South => VehicleDirection::North,
            VehicleDirection::East => VehicleDirection::West,
            VehicleDirection::West => VehicleDirection::East,
        }
    }

    /// The heading after the manoeuvre `intent`.
    pub fn turned(self, intent: Direction) -> (r: VehicleDirection)
        ensures
            r == turned_of(self, intent),
    {
        match intent {
            Direction::Left => match self {
                VehicleDirection::North => VehicleDirection::West,
                VehicleDirection::West => VehicleDirection::South,
                VehicleDirection::South => VehicleDirection::East,
                VehicleDirection::East => VehicleDirection::North,
            },
            Direction::Up => self,
            Direction::Right => match self {
                VehicleDirection::North => VehicleDirection::East,
                VehicleDirection::East => VehicleDirection::South,
                VehicleDirection::South => VehicleDirection::West,
                VehicleDirection::West => VehicleDirection::North,
            },
        }
    }
}

/// The coordinate of `(x, y)` along the axis that points towards `d`.
fn along_axis(x: i64, y: i64, d: VehicleDirection) -> (r: i64)
    requires
        -0x1_0000_0000 <= x <= 0x1_0000_0000,
        -0x1_0000_0000 <= y <= 0x1_0000_0000,
    ensures
        r == along(x as int, y as int, d),
{
    match d {
        VehicleDirection::North => -y,
        VehicleDirection::South => y,
        VehicleDirection::East => x,
        VehicleDirection::West => -x,
    }
}

fn abs_of(a: i64) -> (r: i64)
    requires
        a > i64::MIN,
    ensures
        r == abs(a as int),
{
    if a < 0 {
        -a
    } else {
        a
    }
}

/// Where vehicles from `origin` enter.
pub fn spawn_point(origin: VehicleDirection, cfg: &Config) -> (r: Point)
    requires
        cfg.wf(),
    ensures
        as_int(r) == spawn_of(origin, *cfg),
        inside(as_int(r), *cfg),
{
    let o = cfg.vehicle_width / 2;
    let r = cfg.reach;
    match origin {
        VehicleDirection::North => Point { x: -o, y: -r },
        VehicleDirection::South => Point { x: o, y: r },
        VehicleDirection::West => Point { x: -r, y: o },
        VehicleDirection::East => Point { x: r, y: -o },
    }
}

/// The exit reached from `p` by driving towards `d`.
fn exit_point(p: Point, d: VehicleDirection, cfg: &Config) -> (r: Point)
    requires
        cfg.wf(),
        inside(as_int(p), *cfg),
    ensures
        as_int(r) == exit_of(p, d, *cfg),
        inside(as_int(r), *cfg),
{
    let r = cfg.reach;
    match d {
        VehicleDirection::North => Point { x: p.x, y: -r },
        VehicleDirection::South => Point { x: p.x, y: r },
        VehicleDirection::East => Point { x: r, y: p.y },
        VehicleDirection::West => Point { x: -r, y: p.y },
    }
}

/// One step of `s` from `p` towards `d`.
fn shift(p: Point, d: VehicleDirection, s: i64) -> (r: Point)
    requires
        -0x1_0000_0000 <= p.x <= 0x1_0000_0000,
        -0x1_0000_0000 <= p.y <= 0x1_0000_0000,
        0 <= s <= 0x1_0000_0000,
    ensures
        as_int(r) == shifted(p, d, s as int),
{
    match d {
        VehicleDirection::North => Point { x: p.x, y: p.y - s },
        VehicleDirection::South => Point { x: p.x, y: p.y + s },
        VehicleDirection::East => Point { x: p.x + s, y: p.y },
        VehicleDirection::West => Point { x: p.x - s, y: p.y },
    }
}

impl Vehicle {
    /// A vehicle at the spawn point of `origin`, heading into the junction
    /// at the nominal speed, bound for the exit straight ahead.
    pub fn new(id: u64, origin: VehicleDirection, intent: Direction, cfg: &Config) -> (r: Vehicle)
        requires
            cfg.wf(),
        ensures
            r == spawned(id, origin, intent, *cfg),
            r.wf(*cfg),
            r.id == id,
            r.origin == origin,
            r.intent == intent,
            r.heading == travel_of(origin),
            r.turn == TurnState::Approaching,
            r.speed == cfg.speed,
            as_int(r.position) == spawn_of(origin, *cfg),
            as_int(r.target) == exit_of(r.position, travel_of(origin), *cfg),
    {
        let heading = VehicleDirection::travel(origin);
        let position = spawn_point(origin, cfg);
        let target = exit_point(position, heading, cfg);
        Vehicle {
            id,
            position,
            target,
            speed: cfg.speed,
            origin,
            heading,
            intent,
            turn: TurnState::Approaching,
        }
    }

    pub fn has_turned(&self) -> (r: bool)
        ensures
            r == (self.turn == TurnState::Turned),
    {
        match self.turn {
            TurnState::Turned => true,
            TurnState::Approaching => false,
        }
    }

    /// The square the vehicle covers, centred on its position.
    pub fn shape(&self, cfg: &Config) -> (r: Rect)
        requires
            cfg.wf(),
            self.wf(*cfg),
        ensures
            r.x == self.position.x - cfg.half_width(),
            r.y == self.position.y - cfg.half_width(),
            r.w == cfg.vehicle_width,
            r.h == cfg.vehicle_width,
    {
        let o = cfg.vehicle_width / 2;
        Rect {
            x: self.position.x - o,
            y: self.position.y - o,
            w: cfg.vehicle_width,
            h: cfg.vehicle_width,
        }
    }

    pub fn brake(&mut self)
        ensures
            *final(self) == (Vehicle { speed: 0, ..*old(self) }),
    {
        self.speed = 0;
    }

    pub fn accelerate(&mut self, cfg: &Config)
        ensures
            *final(self) == (Vehicle { speed: cfg.speed, ..*old(self) }),
    {
        self.speed = cfg.speed;
    }

    /// The coordinate along the axis of the vehicle's approach.
    pub fn approach_coord(&self, cfg: &Config) -> (r: i64)
        requires
            cfg.wf(),
            self.wf(*cfg),
        ensures
            r == self.coord(),
    {
        along_axis(self.position.x, self.position.y, VehicleDirection::travel(self.origin))
    }

    pub fn has_arrived(&self, cfg: &Config) -> (r: bool)
        requires
            cfg.wf(),
            self.wf(*cfg),
        ensures
            r == self.arrived(*cfg),
    {
        let dx = self.target.x - self.position.x;
        let dy = self.target.y - self.position.y;
        assert(0 <= dx * dx <= 0x400_0000_0000_0000) by (nonlinear_arith)
            requires
                -0x2000_0000 <= dx <= 0x2000_0000,
        ;
        assert(0 <= dy * dy <= 0x400_0000_0000_0000) by (nonlinear_arith)
            requires
                -0x2000_0000 <= dy <= 0x2000_0000,
        ;
        assert(0 <= cfg.arrive_threshold * cfg.arrive_threshold <= 0x100_0000_0000) by (nonlinear_arith)
            requires
                0 <= cfg.arrive_threshold <= MAX_SETTING,
        ;
        dx * dx + dy * dy < cfg.arrive_threshold * cfg.arrive_threshold
    }

    pub fn is_at_stop_line(&self, cfg: &Config) -> (r: bool)
        requires
            cfg.wf(),
            self.wf(*cfg),
        ensures
            r == self.in_stop_window(*cfg),
    {
        let c = self.approach_coord(cfg);
        -cfg.stop_line - cfg.stop_tolerance <= c && c <= -cfg.stop_line + cfg.stop_tolerance
    }

    pub fn is_turn_due(&self, cfg: &Config) -> (r: bool)
        requires
            cfg.wf(),
            self.wf(*cfg),
        ensures
            r == self.turn_due(*cfg),
    {
        !self.has_turned() && self.approach_coord(cfg) >= -cfg.stop_line + cfg.turn_depth(
            self.intent,
        )
    }

    /// The heading the vehicle would move along this tick.
    pub fn heading_for_step(&self, cfg: &Config) -> (r: VehicleDirection)
        requires
            cfg.wf(),
            self.wf(*cfg),
        ensures
            r == self.next_heading(*cfg),
    {
        if self.is_turn_due(cfg) {
            self.heading.turned(self.intent)
        } else {
            self.heading
        }
    }

    fn gap_to(&self, o: &Vehicle, h: VehicleDirection, cfg: &Config) -> (r: i64)
        requires
            cfg.wf(),
            self.wf(*cfg),
            o.wf(*cfg),
        ensures
            r == self.gap(*o, h),
            -0x2000_0000 <= r <= 0x2000_0000,
    {
        along_axis(o.position.x - self.position.x, o.position.y - self.position.y, h)
    }

    fn dist2_to(&self, o: &Vehicle, cfg: &Config) -> (r: i64)
        requires
            cfg.wf(),
            self.wf(*cfg),
            o.wf(*cfg),
        ensures
            r == self.dist2(*o),
    {
        let dx = o.position.x - self.position.x;
        let dy = o.position.y - self.position.y;
        assert(0 <= dx * dx <= 0x400_0000_0000_0000) by (nonlinear_arith)
            requires
                -0x2000_0000 <= dx <= 0x2000_0000,
        ;
        assert(0 <= dy * dy <= 0x400_0000_0000_0000) by (nonlinear_arith)
            requires
                -0x2000_0000 <= dy <= 0x2000_0000,
        ;
        dx * dx + dy * dy
    }

    fn offset_to(&self, o: &Vehicle, h: VehicleDirection, cfg: &Config) -> (r: i64)
        requires
            cfg.wf(),
            self.wf(*cfg),
            o.wf(*cfg),
        ensures
            r == self.offset(*o, h),
            -0x2000_0000 <= r <= 0x2000_0000,
    {
        let right = VehicleDirection::turned(h, Direction::Right);
        along_axis(o.position.x - self.position.x, o.position.y - self.position.y, right)
    }

    /// Whether `other` stays at least the headway ahead once this vehicle
    /// has made one step towards `h`.
    pub fn is_safe_distance(&self, other: &Vehicle, h: VehicleDirection, cfg: &Config) -> (r: bool)
        requires
            cfg.wf(),
            self.wf(*cfg),
            other.wf(*cfg),
        ensures
            r == (self.gap(*other, h) >= cfg.headway() + self.speed),
    {
        self.gap_to(other, h, cfg) >= cfg.safe_distance + cfg.vehicle_width + self.speed
    }

    /// Whether some vehicle of `lane` blocks this one (see `blocks`).
    pub fn is_blocked(&self, lane: &Vec<Vehicle>, cfg: &Config) -> (r: bool)
        requires
            cfg.wf(),
            self.wf(*cfg),
            forall|j: int| 0 <= j < lane.len() ==> (#[trigger] lane[j]).wf(*cfg),
        ensures
            r == self.blocked(lane@, *cfg),
    {
        let h = VehicleDirection::travel(self.origin);
        let mut i: usize = 0;
        while i < lane.len()
            invariant
                cfg.wf(),
                self.wf(*cfg),
                forall|j: int| 0 <= j < lane.len() ==> (#[trigger] lane[j]).wf(*cfg),
                h == travel_of(self.origin),
                i <= lane.len(),
                forall|j: int| 0 <= j < i ==> !#[trigger] self.blocks(lane@[j], *cfg),
            decreases lane.len() - i,
        {
            let o = &lane[i];
            if o.id != self.id && abs_of(self.offset_to(o, h, cfg)) <= cfg.vehicle_width / 2
                && self.gap_to(o, h, cfg) > 0 && !self.is_safe_distance(o, h, cfg) {
                assert(self.blocks(lane@[i as int], *cfg));
                return true;
            }
            i = i + 1;
        }
        false
    }

    /// The index of the vehicle of `vehicles` ahead of this one, looking
    /// towards `h`, that is nearest in straight-line distance; the first
    /// one of those at that distance.
    pub fn find_closest_vehicle_ahead(
        &self,
        vehicles: &Vec<Vehicle>,
        h: VehicleDirection,
        cfg: &Config,
    ) -> (r: Option<usize>)
        requires
            cfg.wf(),
            self.wf(*cfg),
            forall|j: int| 0 <= j < vehicles.len() ==> (#[trigger] vehicles[j]).wf(*cfg),
        ensures
            r is None ==> forall|j: int|
                0 <= j < vehicles.len() ==> !self.is_ahead(#[trigger] vehicles[j], h, *cfg),
            r matches Some(k) ==> {
                &&& k < vehicles.len()
                &&& self.is_ahead(vehicles[k as int], h, *cfg)
                &&& forall|j: int|
                    0 <= j < vehicles.len() && self.is_ahead(#[trigger] vehicles[j], h, *cfg)
                        ==> self.dist2(vehicles[k as int]) <= self.dist2(vehicles[j])
                &&& forall|j: int|
                    0 <= j < k && self.is_ahead(#[trigger] vehicles[j], h, *cfg) ==> self.dist2(
                        vehicles[k as int],
                    ) < self.dist2(vehicles[j])
            },
    {
        let mut best: Option<usize> = None;
        let mut i: usize = 0;
        while i < vehicles.len()
            invariant
                cfg.wf(),
                self.wf(*cfg),
                forall|j: int| 0 <= j < vehicles.len() ==> (#[trigger] vehicles[j]).wf(*cfg),
                i <= vehicles.len(),
                best is None ==> forall|j: int|
                    0 <= j < i ==> !self.is_ahead(#[trigger] vehicles[j], h, *cfg),
                best matches Some(k) ==> {
                    &&& k < i
                    &&& self.is_ahead(vehicles[k as int], h, *cfg)
                    &&& forall|j: int|
                        0 <= j < i && self.is_ahead(#[trigger] vehicles[j], h, *cfg)
                            ==> self.dist2(vehicles[k as int]) <= self.dist2(vehicles[j])
                    &&& forall|j: int|
                        0 <= j < k && self.is_ahead(#[trigger] vehicles[j], h, *cfg)
                            ==> self.dist2(vehicles[k as int]) < self.dist2(vehicles[j])
                },
            decreases vehicles.len() - i,
        {
            let o = &vehicles[i];
            let g = self.gap_to(o, h, cfg);
            let ahead = o.id != self.id && abs_of(self.offset_to(o, h, cfg)) <= cfg.vehicle_width
                / 2 && g > 0;
            if ahead {
                match best {
                    None => {
                        best = Some(i);
                    },
                    Some(k) => {
                        if self.dist2_to(o, cfg) < self.dist2_to(&vehicles[k], cfg) {
                            best = Some(i);
                        }
                    },
                }
            }
            i = i + 1;
        }
        best
    }

    /// One tick of this vehicle against the snapshot `lane` of its own
    /// lane, with its light `green` or red. In order: a vehicle at its
    /// destination is reported arrived and left as it is; one in the stop
    /// window of a red light, one that would come too close to a vehicle
    /// ahead on the axis of its approach, and a braked one stand still; any other turns if its turn is
    /// due and moves one step along its heading, and is reported as having
    /// left if that step took it out of the world.
    pub fn advance(&mut self, cfg: &Config, green: bool, lane: &Vec<Vehicle>) -> (r: Outcome)
        requires
            cfg.wf(),
            old(self).wf(*cfg),
            forall|j: int| 0 <= j < lane.len() ==> (#[trigger] lane[j]).wf(*cfg),
        ensures
            (*final(self), r) == old(self).stepped(*cfg, green, lane@),
            r == Outcome::Moved || r == Outcome::Held ==> final(self).wf(*cfg),
    {
        if self.has_arrived(cfg) {
            return Outcome::Arrived;
        }
        if self.is_at_stop_line(cfg) && !green {
            return Outcome::Held;
        }
        if self.is_blocked(lane, cfg) || self.speed <= 0 {
            return Outcome::Held;
        }
        let h = self.heading_for_step(cfg);
        if self.is_turn_due(cfg) {
            self.target = exit_point(self.position, h, cfg);
            self.turn = TurnState::Turned;
        }
        self.heading = h;
        self.position = shift(self.position, h, self.speed);
        let e = cfg.extent;
        if -e <= self.position.x && self.position.x <= e && -e <= self.position.y
            && self.position.y <= e {
            Outcome::Moved
        } else {
            Outcome::Left
        }
    }
}

/// A vehicle turns at most once: once turned it stays turned, and a tick
/// changes its heading only when it is the tick that makes the turn.
pub proof fn lemma_turn_happens_once(v: Vehicle, cfg: Config, green: bool, lane: Seq<Vehicle>)
    ensures
        v.turn == TurnState::Turned ==> v.stepped(cfg, green, lane).0.turn == TurnState::Turned,
        v.stepped(cfg, green, lane).0.heading != v.heading ==> {
            &&& v.turn == TurnState::Approaching
            &&& v.stepped(cfg, green, lane).0.turn == TurnState::Turned
        },
{
}

/// A vehicle in the stop window of a red light does not move in a tick,
/// nor turn.
pub proof fn lemma_red_light_holds(v: Vehicle, cfg: Config, lane: Seq<Vehicle>)
    requires
        v.in_stop_window(cfg),
    ensures
        v.stepped(cfg, false, lane).0.position == v.position,
        v.stepped(cfg, false, lane).0.turn == v.turn,
        v.stepped(cfg, false, lane).0.heading == v.heading,
{
}

/// A vehicle that moves in a tick along the axis of its approach ends up
/// at least the headway (safe distance plus a vehicle width) behind every
/// vehicle of the lane's snapshot that lies ahead of it on that axis.
pub proof fn lemma_keeps_headway(v: Vehicle, cfg: Config, green: bool, lane: Seq<Vehicle>)
    requires
        cfg.wf(),
        v.wf(cfg),
        v.stepped(cfg, green, lane).0.position != v.position,
        v.next_heading(cfg) == travel_of(v.origin),
    ensures
        forall|j: int|
            0 <= j < lane.len() && #[trigger] v.stepped(cfg, green, lane).0.is_ahead(
                lane[j],
                travel_of(v.origin),
                cfg,
            ) ==> v.stepped(cfg, green, lane).0.gap(lane[j], travel_of(v.origin)) >= cfg.headway(),
{
    let n = v.stepped(cfg, green, lane).0;
    let h = travel_of(v.origin);
    assert(n == v.driven(cfg));
    assert forall|j: int|
        0 <= j < lane.len() && #[trigger] n.is_ahead(lane[j], h, cfg) implies n.gap(lane[j], h)
        >= cfg.headway() by {
        assert(n.gap(lane[j], h) == v.gap(lane[j], h) - v.speed);
        assert(n.offset(lane[j], h) == v.offset(lane[j], h));
        assert(v.is_ahead(lane[j], h, cfg));
        if v.gap(lane[j], h) < cfg.headway() + v.speed {
            assert(v.blocks(lane[j], cfg));
        }
    }
}

} // verus!
