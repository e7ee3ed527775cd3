//! The simulation engine and its settings.

use vstd::prelude::*;

pub mod engine;
pub mod laws;
pub mod model;

pub use engine::Engine;

verus! {

/// What can be tuned while the engine runs.
#[derive(Debug)]
pub struct EngineSettings<S> {
    /// Whether the simulation runs. While it does not, packets are still
    /// counted, but none is shown and nothing moves.
    pub update: bool,
    /// Whether debug lines are drawn.
    pub draw_debug: bool,
    /// How many packets may be in flight at once.
    pub max_packets: u32,
    /// The widest angle by which a launch may miss the straight line.
    pub angle_launch: S,
    /// The speed at which a packet is launched.
    pub speed_launch: S,
    /// How near its destination a packet counts as arrived.
    pub delete_distance: S,
}

impl<S: Copy> EngineSettings<S> {
    /// The settings the engine starts with: running, no debug lines, up to
    /// ten thousand packets in flight, and the given launch angle, launch
    /// speed and arrival distance.
    pub fn new(angle_launch: S, speed_launch: S, delete_distance: S) -> (settings: Self)
        ensures
            settings == (EngineSettings {
                update: true,
                draw_debug: false,
                max_packets: 10000,
                angle_launch,
                speed_launch,
                delete_distance,
            }),
    {
        EngineSettings {
            update: true,
            draw_debug: false,
            max_packets: 10000,
            angle_launch,
            speed_launch,
            delete_distance,
        }
    }
}

impl<S: Copy> Clone for EngineSettings<S> {
    fn clone(&self) -> (copy: Self)
        ensures
            copy == *self,
    {
        *self
    }
}

impl<S: Copy> Copy for EngineSettings<S> {

}

} // verus!
