//! A single four-way road intersection: vehicles enter on four approach
//! lanes, keep a safe distance to the vehicle ahead, stop at red lights,
//! turn once inside the junction and leave; an arbitration rule gives the
//! green light to the approach with the most waiting vehicles.

pub mod config;
pub mod intersection;
pub mod road;
pub mod traffic_lane;
pub mod traffic_light;
pub mod vehicle;

pub use config::{Config, Direction};
pub use intersection::Intersection;
pub use road::{can_spawn_vehicle, traffic_check};
pub use traffic_lane::TrafficLanes;
pub use traffic_light::TrafficLight;
pub use vehicle::{Outcome, Point, Rect, TurnState, Vehicle, VehicleDirection};
