use vstd::prelude::*;

verus! {

/// Largest value accepted for a distance-like setting of the geometry.
pub const MAX_SETTING: i64 = 1048576;

/// Largest half side accepted for the square the simulation lives in.
pub const MAX_EXTENT: i64 = 268435456;

/// The manoeuvre a vehicle makes at the junction: `Up` goes straight on.
#[derive(Debug, Clone, Copy, PartialEq, Eq, Structural)]
pub enum Direction {
    Left,
    Up,
    Right,
}

/// Relies on rand::random_range: a value of the half-open range `0..n`.
#[verifier::external_body]
fn random_below(n: u64) -> (r: u64)
    requires
        n > 0,
    ensures
        r < n,
{
    rand::random_range(0..n)
}

impl Direction {
    /// The drawing colour of vehicles with this intent, as red, green, blue.
    pub fn color(&self) -> (r: (u8, u8, u8))
        ensures
            r == color_of(*self),
    {
        match self {
            Direction::Left => (220, 220, 30),
            Direction::Up => (30, 220, 220),
            Direction::Right => (220, 30, 220),
        }
    }

    /// The intent numbered `n`: 1 turns right, 2 turns left, anything else
    /// goes straight on.
    pub fn from_index(n: u64) -> (r: Direction)
        ensures
            r == intent_of_index(n as int),
    {
        if n == 1 {
            Direction::Right
        } else if n == 2 {
            Direction::Left
        } else {
            Direction::Up
        }
    }

    /// An intent drawn at random among the three.
    pub fn random() -> (r: Direction) {
        let n = random_below(3);
        Direction::from_index(n)
    }
}

pub open spec fn color_of(d: Direction) -> (u8, u8, u8) {
    match d {
        Direction::Left => (220u8, 220u8, 30u8),
        Direction::Up => (30u8, 220u8, 220u8),
        Direction::Right => (220u8, 30u8, 220u8),
    }
}

pub open spec fn intent_of_index(n: int) -> Direction {
    if n == 1 {
        Direction::Right
    } else if n == 2 {
        Direction::Left
    } else {
        Direction::Up
    }
}

/// The geometry and pace of the simulation. The junction is centred on the
/// origin; `x` grows to the east and `y` to the south, so a vehicle coming
/// from the north travels towards growing `y`. Vehicles keep to the right,
/// half a vehicle width off the centre line of their road.
#[derive(Debug, Clone, Copy, PartialEq, Eq, Structural)]
pub struct Config {
    /// Side of the square a vehicle occupies.
    pub vehicle_width: i64,
    /// Gap kept between consecutive vehicles of one lane.
    pub safe_distance: i64,
    /// Distance a moving vehicle covers in one tick.
    pub speed: i64,
    /// Distance from the centre to the spawn points and to the exits.
    pub reach: i64,
    /// Distance from the centre to each approach's stop line.
    pub stop_line: i64,
    /// How close to the stop line a vehicle has to be to stop at a red light.
    pub stop_tolerance: i64,
    /// How far past the stop line a vehicle turning left changes heading.
    pub left_turn_depth: i64,
    /// How far past the stop line a vehicle turning right changes heading.
    pub right_turn_depth: i64,
    /// Half side of the square junction box centred on the origin.
    pub junction_half: i64,
    /// A vehicle closer than this to its destination has arrived.
    pub arrive_threshold: i64,
    /// Half side of the square the vehicles live in; one that leaves it is
    /// gone.
    pub extent: i64,
}

pub open spec fn setting_ok(v: i64) -> bool {
    0 <= v <= MAX_SETTING
}

impl Config {
    /// The settings are in range: every distance is small enough for the
    /// arithmetic of a tick, the spawn points lie inside the world, and a
    /// turning vehicle changes heading past the stop window.
    pub open spec fn wf(&self) -> bool {
        &&& 1 <= self.vehicle_width <= MAX_SETTING
        &&& setting_ok(self.safe_distance)
        &&& 1 <= self.speed <= MAX_SETTING
        &&& setting_ok(self.stop_line)
        &&& setting_ok(self.stop_tolerance)
        &&& setting_ok(self.left_turn_depth)
        &&& setting_ok(self.right_turn_depth)
        &&& setting_ok(self.junction_half)
        &&& setting_ok(self.arrive_threshold)
        &&& self.stop_tolerance < self.left_turn_depth
        &&& self.stop_tolerance < self.right_turn_depth
        &&& self.vehicle_width / 2 <= self.reach
        &&& 0 <= self.reach <= self.extent <= MAX_EXTENT
    }

    /// Half a vehicle width: the offset of a lane from its road's centre line.
    pub open spec fn half_width(&self) -> int {
        self.vehicle_width / 2
    }

    /// The gap that admission control and following both keep.
    pub open spec fn headway(&self) -> int {
        self.safe_distance + self.vehicle_width
    }

    /// A geometry in the proportions of a 1000 by 1000 canvas: lanes one
    /// 50 wide vehicle across, a 100 wide junction, 3 units per tick.
    pub fn standard() -> (r: Config)
        ensures
            r.wf(),
            r == (Config {
                vehicle_width: 50,
                safe_distance: 50,
                speed: 3,
                reach: 600,
                stop_line: 75,
                stop_tolerance: 2,
                left_turn_depth: 100,
                right_turn_depth: 50,
                junction_half: 50,
                arrive_threshold: 2,
                extent: 700,
            }),
    {
        Config {
            vehicle_width: 50,
            safe_distance: 50,
            speed: 3,
            reach: 600,
            stop_line: 75,
            stop_tolerance: 2,
            left_turn_depth: 100,
            right_turn_depth: 50,
            junction_half: 50,
            arrive_threshold: 2,
            extent: 700,
        }
    }

    /// The depth past the stop line at which a vehicle with this intent
    /// changes heading.
    pub fn turn_depth(&self, intent: Direction) -> (r: i64)
        ensures
            r == self.turn_depth_of(intent),
    {
        match intent {
            Direction::Left => self.left_turn_depth,
            Direction::Up => 0,
            Direction::Right => self.right_turn_depth,
        }
    }

    pub open spec fn turn_depth_of(&self, intent: Direction) -> i64 {
        match intent {
            Direction::Left => self.left_turn_depth,
            Direction::Up => 0,
            Direction::Right => self.right_turn_depth,
        }
    }
}

} // verus!
