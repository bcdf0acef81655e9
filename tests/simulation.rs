use std::collections::VecDeque;

use road_intersection::{
    can_spawn_vehicle, traffic_check, Config, Direction, Intersection, Outcome, Point, Rect,
    TrafficLanes, TrafficLight, TurnState, Vehicle, VehicleDirection,
};

fn standard() -> Config {
    Config::standard()
}

fn vehicle_at(id: u64, origin: VehicleDirection, intent: Direction, x: i64, y: i64) -> Vehicle {
    let mut v = Vehicle::new(id, origin, intent, &standard());
    v.position = Point { x, y };
    v
}

#[test]
fn color_per_intent() {
    assert_eq!(Direction::Left.color(), (220, 220, 30));
    assert_eq!(Direction::Up.color(), (30, 220, 220));
    assert_eq!(Direction::Right.color(), (220, 30, 220));
}

#[test]
fn intent_from_index() {
    assert_eq!(Direction::from_index(0), Direction::Up);
    assert_eq!(Direction::from_index(1), Direction::Right);
    assert_eq!(Direction::from_index(2), Direction::Left);
    assert_eq!(Direction::from_index(7), Direction::Up);
}

#[test]
fn random_intent_is_not_always_straight() {
    let mut seen_turn = false;
    for _ in 0..300 {
        if Direction::random() != Direction::Up {
            seen_turn = true;
        }
    }
    assert!(seen_turn);
}

#[test]
fn traffic_check_does_nothing() {
    traffic_check();
}

#[test]
fn light_starts_red_and_toggles() {
    let mut l = TrafficLight::new();
    assert!(!l.is_green());
    l.change_state();
    assert!(l.is_green());
    l.change_state();
    assert!(!l.state);
    l.set_state(true);
    assert!(l.state);
}

#[test]
fn new_vehicle_at_spawn_points() {
    let cfg = standard();
    let n = Vehicle::new(1, VehicleDirection::North, Direction::Up, &cfg);
    assert_eq!(n.position, Point { x: -25, y: -600 });
    assert_eq!(n.target, Point { x: -25, y: 600 });
    assert_eq!(n.heading, VehicleDirection::South);
    assert_eq!(n.speed, 3);
    assert!(!n.has_turned());
    let s = Vehicle::new(2, VehicleDirection::South, Direction::Left, &cfg);
    assert_eq!(s.position, Point { x: 25, y: 600 });
    assert_eq!(s.heading, VehicleDirection::North);
    let e = Vehicle::new(3, VehicleDirection::East, Direction::Right, &cfg);
    assert_eq!(e.position, Point { x: 600, y: -25 });
    assert_eq!(e.heading, VehicleDirection::West);
    let w = Vehicle::new(4, VehicleDirection::West, Direction::Up, &cfg);
    assert_eq!(w.position, Point { x: -600, y: 25 });
    assert_eq!(w.target, Point { x: 600, y: 25 });
    assert_eq!(w.heading, VehicleDirection::East);
}

#[test]
fn shape_is_centred_square() {
    let v = vehicle_at(1, VehicleDirection::North, Direction::Up, 10, 20);
    assert_eq!(v.shape(&standard()), Rect { x: -15, y: -5, w: 50, h: 50 });
}

#[test]
fn brake_and_accelerate() {
    let cfg = standard();
    let mut v = Vehicle::new(1, VehicleDirection::North, Direction::Up, &cfg);
    v.brake();
    assert_eq!(v.speed, 0);
    let before = v.position;
    assert_eq!(v.advance(&cfg, true, &vec![]), Outcome::Held);
    assert_eq!(v.position, before);
    v.accelerate(&cfg);
    assert_eq!(v.speed, 3);
}

#[test]
fn scenario_spawn_then_reject() {
    let mut sim = Intersection::new(standard());
    sim.spawn(VehicleDirection::North, Some(Direction::Up));
    assert_eq!(sim.lane_count(VehicleDirection::North), 1);
    let v = sim.vehicles(VehicleDirection::North)[0];
    assert_eq!(v.id, 1);
    assert_eq!(v.position, Point { x: -25, y: -600 });
    assert!(!v.has_turned());
    sim.spawn(VehicleDirection::North, Some(Direction::Up));
    assert_eq!(sim.lane_count(VehicleDirection::North), 1);
    assert_eq!(sim.lanes.total_vehicle_count(), 1);
}

#[test]
fn spawn_admitted_once_lane_is_clear() {
    let mut sim = Intersection::new(standard());
    sim.spawn(VehicleDirection::North, Some(Direction::Up));
    sim.lanes.up[0].position = Point { x: -25, y: -501 };
    sim.spawn(VehicleDirection::North, None);
    assert_eq!(sim.lane_count(VehicleDirection::North), 1);
    sim.lanes.up[0].position = Point { x: -25, y: -500 };
    sim.spawn(VehicleDirection::North, None);
    assert_eq!(sim.lane_count(VehicleDirection::North), 2);
    let lane = sim.vehicles(VehicleDirection::North);
    assert_eq!(lane[1].id, 2);
    assert!(lane[0].position.y - lane[1].position.y >= 50);
}

#[test]
fn spawn_on_other_lanes_is_independent() {
    let mut sim = Intersection::new(standard());
    sim.spawn(VehicleDirection::North, Some(Direction::Up));
    sim.spawn(VehicleDirection::South, Some(Direction::Left));
    sim.spawn(VehicleDirection::East, Some(Direction::Right));
    sim.spawn(VehicleDirection::West, Some(Direction::Up));
    assert_eq!(sim.lanes.get_lane_counts(), (1, 1, 1, 1));
    assert_eq!(sim.lanes.total_vehicle_count(), 4);
    assert_eq!(sim.vehicles(VehicleDirection::West)[0].id, 4);
}

#[test]
fn can_spawn_vehicle_rule() {
    let cfg = standard();
    assert!(can_spawn_vehicle(&VecDeque::new(), &cfg));
    let near = vehicle_at(1, VehicleDirection::East, Direction::Up, 501, -25);
    assert!(!can_spawn_vehicle(&VecDeque::from(vec![near]), &cfg));
    let clear = vehicle_at(1, VehicleDirection::East, Direction::Up, 500, -25);
    assert!(can_spawn_vehicle(&VecDeque::from(vec![clear]), &cfg));
    assert!(!can_spawn_vehicle(&VecDeque::from(vec![clear, near]), &cfg));
}

#[test]
fn scenario_red_light_holds_vehicle() {
    let mut sim = Intersection::new(standard());
    sim.spawn(VehicleDirection::North, Some(Direction::Up));
    sim.lanes.up[0].position = Point { x: -25, y: -75 };
    sim.tick();
    assert!(!sim.light_is_green(VehicleDirection::North));
    let v = sim.vehicles(VehicleDirection::North)[0];
    assert_eq!(v.position, Point { x: -25, y: -75 });
    assert!(!v.has_turned());
    assert_eq!(sim.waiting_count(VehicleDirection::North), 1);
}

#[test]
fn red_light_within_tolerance() {
    let cfg = standard();
    let mut v = vehicle_at(1, VehicleDirection::East, Direction::Left, 77, -25);
    assert_eq!(v.advance(&cfg, false, &vec![]), Outcome::Held);
    assert_eq!(v.position, Point { x: 77, y: -25 });
    let mut w = vehicle_at(1, VehicleDirection::East, Direction::Left, 78, -25);
    assert_eq!(w.advance(&cfg, false, &vec![]), Outcome::Moved);
    assert_eq!(w.position, Point { x: 75, y: -25 });
}

#[test]
fn scenario_green_light_advances_one_step() {
    let cfg = standard();
    let mut v = vehicle_at(1, VehicleDirection::North, Direction::Left, -25, -75);
    assert_eq!(v.advance(&cfg, true, &vec![]), Outcome::Moved);
    assert_eq!(v.position, Point { x: -25, y: -72 });
    assert_eq!(v.heading, VehicleDirection::South);

    let mut sim = Intersection::new(cfg);
    sim.spawn(VehicleDirection::North, Some(Direction::Left));
    sim.lanes.up[0].position = Point { x: -25, y: -75 };
    sim.tick();
    sim.tick();
    assert!(sim.light_is_green(VehicleDirection::North));
    assert_eq!(sim.vehicles(VehicleDirection::North)[0].position, Point { x: -25, y: -72 });
    assert_eq!(sim.waiting_count(VehicleDirection::North), 0);
}

#[test]
fn scenario_arbitration_picks_busiest() {
    let mut sim = Intersection::new(standard());
    for (i, x) in [75, 175, 275].iter().enumerate() {
        sim.spawn(VehicleDirection::East, Some(Direction::Up));
        sim.lanes.right[i].position = Point { x: *x, y: -25 };
    }
    sim.spawn(VehicleDirection::West, Some(Direction::Up));
    sim.lanes.left[0].position = Point { x: -75, y: 25 };
    sim.tick();
    assert_eq!(sim.waiting_count(VehicleDirection::East), 3);
    assert_eq!(sim.waiting_count(VehicleDirection::West), 1);
    assert!(!sim.is_occupied());
    sim.tick();
    assert!(sim.light_is_green(VehicleDirection::East));
    assert!(!sim.light_is_green(VehicleDirection::West));
    assert!(!sim.light_is_green(VehicleDirection::North));
    assert!(!sim.light_is_green(VehicleDirection::South));
}

#[test]
fn arbitration_all_red_when_nobody_waits() {
    let mut sim = Intersection::new(standard());
    sim.set_light(VehicleDirection::South, true);
    assert!(sim.light_is_green(VehicleDirection::South));
    sim.update_lights();
    assert!(!sim.light_is_green(VehicleDirection::South));
}

#[test]
fn arbitration_tie_goes_to_first() {
    let mut sim = Intersection::new(standard());
    sim.waiting_lane[1] = vec![1, 2];
    sim.waiting_lane[3] = vec![3, 4];
    sim.update_lights();
    assert!(sim.light_is_green(VehicleDirection::South));
    assert!(!sim.light_is_green(VehicleDirection::West));
}

#[test]
fn arbitration_waits_while_junction_occupied() {
    let mut sim = Intersection::new(standard());
    sim.change_state(VehicleDirection::West);
    sim.waiting_lane[0] = vec![1, 2, 3];
    sim.junction = vec![9];
    sim.update_lights();
    assert!(sim.light_is_green(VehicleDirection::West));
    assert!(!sim.light_is_green(VehicleDirection::North));
    sim.update_lights();
    assert!(sim.light_is_green(VehicleDirection::West));
    assert!(!sim.light_is_green(VehicleDirection::North));
}

#[test]
fn vehicle_stops_behind_leader() {
    let cfg = standard();
    let leader = vehicle_at(1, VehicleDirection::North, Direction::Up, -25, -200);
    let mut close = vehicle_at(2, VehicleDirection::North, Direction::Up, -25, -297);
    let lane = vec![leader, close];
    assert_eq!(close.find_closest_vehicle_ahead(&lane, VehicleDirection::South, &cfg), Some(0));
    assert!(!close.is_safe_distance(&leader, VehicleDirection::South, &cfg));
    assert_eq!(close.advance(&cfg, true, &lane), Outcome::Held);
    assert_eq!(close.position, Point { x: -25, y: -297 });

    let mut clear = vehicle_at(2, VehicleDirection::North, Direction::Up, -25, -303);
    let lane = vec![leader, clear];
    assert!(clear.is_safe_distance(&leader, VehicleDirection::South, &cfg));
    assert_eq!(clear.advance(&cfg, true, &lane), Outcome::Moved);
    assert_eq!(clear.position, Point { x: -25, y: -300 });
    assert!(leader.position.y - clear.position.y >= 100);
}

#[test]
fn closest_ahead_ignores_other_lines_and_behind() {
    let cfg = standard();
    let me = vehicle_at(5, VehicleDirection::North, Direction::Up, -25, -300);
    let behind = vehicle_at(1, VehicleDirection::North, Direction::Up, -25, -400);
    let beside = vehicle_at(2, VehicleDirection::North, Direction::Up, 26, -250);
    let far = vehicle_at(3, VehicleDirection::North, Direction::Up, -25, -100);
    let near = vehicle_at(4, VehicleDirection::North, Direction::Up, -20, -200);
    let lane = vec![behind, beside, far, near, me];
    assert_eq!(me.find_closest_vehicle_ahead(&lane, VehicleDirection::South, &cfg), Some(3));
    assert_eq!(me.find_closest_vehicle_ahead(&vec![behind, beside, me], VehicleDirection::South, &cfg), None);
}

#[test]
fn right_turn_happens_once() {
    let cfg = standard();
    let mut v = vehicle_at(1, VehicleDirection::North, Direction::Right, -25, -25);
    assert!(v.is_turn_due(&cfg));
    assert_eq!(v.advance(&cfg, true, &vec![]), Outcome::Moved);
    assert_eq!(v.turn, TurnState::Turned);
    assert_eq!(v.heading, VehicleDirection::West);
    assert_eq!(v.position, Point { x: -28, y: -25 });
    assert_eq!(v.target, Point { x: -600, y: -25 });
    assert_eq!(v.advance(&cfg, true, &vec![]), Outcome::Moved);
    assert_eq!(v.heading, VehicleDirection::West);
    assert!(v.has_turned());
    assert_eq!(v.position, Point { x: -31, y: -25 });
}

#[test]
fn left_turn_rotates_left() {
    let cfg = standard();
    let mut v = vehicle_at(1, VehicleDirection::West, Direction::Left, 25, 25);
    assert_eq!(v.advance(&cfg, true, &vec![]), Outcome::Moved);
    assert_eq!(v.heading, VehicleDirection::North);
    assert_eq!(v.position, Point { x: 25, y: 22 });
    assert_eq!(v.target, Point { x: 25, y: -600 });
}

#[test]
fn no_turn_before_trigger() {
    let cfg = standard();
    let mut v = vehicle_at(1, VehicleDirection::South, Direction::Right, 25, 26);
    assert_eq!(v.advance(&cfg, true, &vec![]), Outcome::Moved);
    assert_eq!(v.heading, VehicleDirection::North);
    assert!(!v.has_turned());
    assert_eq!(v.position, Point { x: 25, y: 23 });
}

#[test]
fn vehicle_at_target_arrives() {
    let cfg = standard();
    let mut v = vehicle_at(1, VehicleDirection::North, Direction::Up, -25, 599);
    assert!(v.has_arrived(&cfg));
    assert_eq!(v.advance(&cfg, true, &vec![]), Outcome::Arrived);
    assert_eq!(v.position, Point { x: -25, y: 599 });
    let mut w = vehicle_at(1, VehicleDirection::North, Direction::Up, -25, 598);
    assert!(!w.has_arrived(&cfg));
}

#[test]
fn vehicle_leaving_world_is_reported_left() {
    let cfg = standard();
    let mut v = vehicle_at(1, VehicleDirection::North, Direction::Up, -25, 699);
    assert!(!v.has_arrived(&cfg));
    assert_eq!(v.advance(&cfg, true, &vec![]), Outcome::Left);
    assert_eq!(v.position, Point { x: -25, y: 702 });
}

#[test]
fn vehicle_leaving_world_is_removed() {
    let mut sim = Intersection::new(standard());
    sim.spawn(VehicleDirection::West, Some(Direction::Up));
    sim.lanes.left[0].position = Point { x: 699, y: 25 };
    sim.lanes.left[0].target = Point { x: 100, y: 25 };
    sim.tick();
    assert_eq!(sim.lane_count(VehicleDirection::West), 0);
}

#[test]
fn closest_ahead_is_nearest_by_distance() {
    let cfg = standard();
    let me = vehicle_at(1, VehicleDirection::North, Direction::Up, 0, 0);
    let aside = vehicle_at(2, VehicleDirection::North, Direction::Up, 25, 10);
    let straight = vehicle_at(3, VehicleDirection::North, Direction::Up, 0, 11);
    let lane = vec![aside, straight];
    assert_eq!(me.find_closest_vehicle_ahead(&lane, VehicleDirection::South, &cfg), Some(1));
    let tie = vehicle_at(4, VehicleDirection::North, Direction::Up, 0, 11);
    let lane = vec![aside, straight, tie];
    assert_eq!(me.find_closest_vehicle_ahead(&lane, VehicleDirection::South, &cfg), Some(1));
}

#[test]
fn turned_vehicle_stops_for_vehicle_ahead_on_its_approach() {
    let cfg = standard();
    let mut v = vehicle_at(1, VehicleDirection::North, Direction::Right, -28, -25);
    v.heading = VehicleDirection::West;
    v.turn = TurnState::Turned;
    v.target = Point { x: -600, y: -25 };
    let other = vehicle_at(2, VehicleDirection::North, Direction::Up, -22, 27);
    let lane = vec![v, other];
    assert!(v.is_blocked(&lane, &cfg));
    assert_eq!(v.advance(&cfg, true, &lane), Outcome::Held);
    assert_eq!(v.position, Point { x: -28, y: -25 });
    let far = vehicle_at(2, VehicleDirection::North, Direction::Up, -22, 80);
    let lane = vec![v, far];
    assert_eq!(v.advance(&cfg, true, &lane), Outcome::Moved);
    assert_eq!(v.position, Point { x: -31, y: -25 });
}

#[test]
fn arrived_vehicles_are_removed_in_order() {
    let mut sim = Intersection::new(standard());
    for i in 0..3 {
        sim.spawn(VehicleDirection::South, Some(Direction::Up));
        let y = [-599, -300, 0][i];
        sim.lanes.bottom[i].position = Point { x: 25, y };
    }
    sim.tick();
    let lane = sim.vehicles(VehicleDirection::South);
    assert_eq!(lane.len(), 2);
    assert_eq!(lane[0].id, 2);
    assert_eq!(lane[1].id, 3);
    assert_eq!(lane[0].position, Point { x: 25, y: -303 });
    assert_eq!(lane[1].position, Point { x: 25, y: -3 });
    assert!(sim.is_occupied());
    assert_eq!(sim.junction, vec![3]);
}

#[test]
fn lanes_start_empty() {
    let lanes = TrafficLanes::new();
    assert_eq!(lanes.get_lane_counts(), (0, 0, 0, 0));
    assert_eq!(lanes.total_vehicle_count(), 0);
    assert!(lanes.lane(VehicleDirection::East).is_empty());
}

#[test]
fn lane_tick_reports_waiting_and_junction() {
    let cfg = standard();
    let mut lanes = TrafficLanes::new();
    lanes.spawn_vehicle(VehicleDirection::West, Direction::Up, &cfg);
    lanes.left[0].position = Point { x: -75, y: 25 };
    let (waiting, inside) = lanes.tick(VehicleDirection::West, &cfg, false);
    assert_eq!(waiting, vec![1]);
    assert!(inside.is_empty());
    let (waiting, inside) = lanes.tick(VehicleDirection::West, &cfg, true);
    assert!(waiting.is_empty());
    assert!(inside.is_empty());
    assert_eq!(lanes.left[0].position, Point { x: -72, y: 25 });
    lanes.left[0].position = Point { x: -53, y: 25 };
    let (_, inside) = lanes.tick(VehicleDirection::West, &cfg, true);
    assert_eq!(inside, vec![1]);
}

#[test]
fn intersection_starts_red_and_empty() {
    let sim = Intersection::new(standard());
    for a in [
        VehicleDirection::North,
        VehicleDirection::South,
        VehicleDirection::East,
        VehicleDirection::West,
    ] {
        assert!(!sim.light_is_green(a));
        assert_eq!(sim.lane_count(a), 0);
        assert_eq!(sim.waiting_count(a), 0);
    }
    assert!(!sim.is_occupied());
    assert_eq!(VehicleDirection::East.index(), 2);
}

#[test]
fn standard_config_values() {
    let c = Config::standard();
    assert_eq!(c.vehicle_width, 50);
    assert_eq!(c.turn_depth(Direction::Left), 100);
    assert_eq!(c.turn_depth(Direction::Up), 0);
    assert_eq!(c.turn_depth(Direction::Right), 50);
}
