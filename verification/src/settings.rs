//! Tunable parameters.  Read-mostly: an external configuration surface may
//! rewrite them between ticks, so every routine re-reads them each tick.
//! Scalars are fixed-point; colors are 8-bit channels.

use vstd::prelude::*;

use crate::fx::{Fx, SCALE};
use crate::prelude::Color;

verus! {

#[derive(Clone, Copy, Debug, PartialEq, Eq, Structural)]
pub struct Settings {
    pub quit: bool,
    pub restart: bool,
    pub meadow_height: Fx,
    pub meadow_width: Fx,
    pub num_flowers: usize,
    pub flower_size_min: Fx,
    pub flower_size_max: Fx,
    pub mass: Fx,
    pub max_thrust: Fx,
    pub wind_resistance: Fx,
    pub meadow_color: Color,
    pub animation_speed: Fx,
    pub bee_size: Fx,
    pub max_zoom: Fx,
    pub velocity_zoom: Fx,
    pub flower_core_size: Fx,
    pub flower_uncollected_color: Color,
    pub flower_collected_color: Color,
}

impl Settings {
    /// What every consumer of the settings counts on: scalars in band, the
    /// quantities divided by strictly positive, sizes non-negative and the
    /// flower size range ordered, and the world the settings can span small
    /// enough that a hundredfold meadow still fits the coordinate band.
    pub open spec fn wf(self) -> bool {
        &&& self.meadow_height.wf()
        &&& self.meadow_width.wf()
        &&& self.flower_size_min.wf()
        &&& self.flower_size_max.wf()
        &&& self.mass.wf()
        &&& self.max_thrust.wf()
        &&& self.wind_resistance.wf()
        &&& self.animation_speed.wf()
        &&& self.bee_size.wf()
        &&& self.max_zoom.wf()
        &&& self.velocity_zoom.wf()
        &&& self.flower_core_size.wf()
        &&& self.mass.raw >= 1
        &&& 0 <= self.meadow_height.raw <= 1000 * SCALE
        &&& 0 <= self.meadow_width.raw <= 1000 * SCALE
        &&& self.num_flowers <= 100000
        &&& 0 < self.flower_size_min.raw <= self.flower_size_max.raw
        &&& self.flower_size_max.raw <= 1000 * SCALE
        &&& self.max_thrust.raw >= 0
        &&& self.wind_resistance.raw >= 0
        &&& self.animation_speed.raw >= 0
    }

    pub fn want_quit(&mut self) -> (r: bool)
        ensures
            r == old(self).quit,
            *final(self) == (Settings { quit: false, ..*old(self) }),
    {
        let res = self.quit;
        self.quit = false;
        res
    }

    pub fn want_restart(&mut self) -> (r: bool)
        ensures
            r == (old(self).restart || old(self).quit),
            *final(self) == (Settings { restart: false, ..*old(self) }),
    {
        let res = self.restart || self.quit;
        self.restart = false;
        res
    }
}

impl Default for Settings {
    /// The tuned baseline configuration.
    fn default() -> (r: Settings)
        ensures
            r == (Settings {
                quit: false,
                restart: false,
                meadow_height: crate::fx::fx_from_units(100),
                meadow_width: crate::fx::fx_from_units(100),
                num_flowers: 300,
                flower_size_min: crate::fx::fx_from_units(25),
                flower_size_max: crate::fx::fx_from_units(40),
                mass: crate::fx::fx_from_units(1),
                max_thrust: crate::fx::fx_from_units(100),
                wind_resistance: crate::fx::fx_from_units(70),
                meadow_color: Color { r: 11, g: 118, b: 11, a: 255 },
                animation_speed: crate::fx::fx_from_units(30),
                bee_size: crate::fx::fx_from_units(200),
                max_zoom: crate::fx::fx_from_units(400),
                velocity_zoom: crate::fx::fx_from_units(150),
                flower_core_size: crate::fx::fx_from_units(250),
                flower_uncollected_color: Color { r: 252, g: 195, b: 0, a: 255 },
                flower_collected_color: Color { r: 51, g: 36, b: 13, a: 255 },
            }),
            r.wf(),
    {
        Settings {
            quit: false,
            restart: false,
            meadow_height: Fx::from_units(100),
            meadow_width: Fx::from_units(100),
            num_flowers: 300,
            flower_size_min: Fx::from_units(25),
            flower_size_max: Fx::from_units(40),
            mass: Fx::from_units(1),
            max_thrust: Fx::from_units(100),
            wind_resistance: Fx::from_units(70),
            meadow_color: Color::new(11, 118, 11, 255),
            animation_speed: Fx::from_units(30),
            bee_size: Fx::from_units(200),
            max_zoom: Fx::from_units(400),
            velocity_zoom: Fx::from_units(150),
            flower_core_size: Fx::from_units(250),
            flower_uncollected_color: Color::new(252, 195, 0, 255),
            flower_collected_color: Color::new(51, 36, 13, 255),
        }
    }
}

} // verus!
