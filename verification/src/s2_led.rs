//! The LED state of an ESP-NOW node.

use vstd::prelude::*;
use crate::color::Rgb8;

verus! {

/// The colour the node's LEDs show.
pub struct LedController {
    current_color: Rgb8,
    num_leds: usize,
}

impl LedController {
    /// Controller for `num_leds` LEDs, all off.
    pub fn new(num_leds: usize) -> (r: Self)
        ensures
            r.color() == (Rgb8 { r: 0, g: 0, b: 0 }),
            r.led_count() == num_leds,
    {
        LedController { current_color: Rgb8::new(0, 0, 0), num_leds }
    }

    /// The colour shown.
    pub closed spec fn color(&self) -> Rgb8 {
        self.current_color
    }

    /// The number of LEDs driven.
    pub closed spec fn led_count(&self) -> usize {
        self.num_leds
    }

    /// Shows `color`.
    pub fn set_color(&mut self, color: Rgb8)
        ensures
            final(self).color() == color,
            final(self).led_count() == old(self).led_count(),
    {
        self.current_color = color;
    }

    /// The colour shown.
    pub fn get_color(&self) -> (r: Rgb8)
        ensures
            r == self.color(),
    {
        self.current_color
    }

    /// Turns every LED off.
    pub fn turn_off(&mut self)
        ensures
            final(self).color() == (Rgb8 { r: 0, g: 0, b: 0 }),
            final(self).led_count() == old(self).led_count(),
    {
        self.current_color = Rgb8::new(0, 0, 0);
    }
}

/// Shows `color` on the node's LEDs; returns whether they are set up (the
/// colour is dropped otherwise).
pub fn set_color(led: &mut Option<LedController>, color: Rgb8) -> (r: bool)
    ensures
        r == (*old(led)) is Some,
        (*old(led)) is None ==> (*final(led)) is None,
        (*old(led)) is Some ==> (*final(led)) is Some && final(led)->0.color() == color
            && final(led)->0.led_count() == old(led)->0.led_count(),
{
    match led {
        Some(controller) => {
            controller.set_color(color);
            true
        },
        None => false,
    }
}

/// Turns the node's LEDs off, once they are set up.
pub fn turn_off(led: &mut Option<LedController>)
    ensures
        (*old(led)) is None ==> (*final(led)) is None,
        (*old(led)) is Some ==> (*final(led)) is Some && final(led)->0.color() == (Rgb8 {
            r: 0,
            g: 0,
            b: 0,
        }) && final(led)->0.led_count() == old(led)->0.led_count(),
{
    match led {
        Some(controller) => controller.turn_off(),
        None => {},
    }
}

/// The colour the node's LEDs show; none before they are set up.
pub fn get_color(led: &Option<LedController>) -> (r: Option<Rgb8>)
    ensures
        led is None ==> r is None,
        led is Some ==> r == Some(led->0.color()),
{
    match led {
        Some(controller) => Some(controller.get_color()),
        None => None,
    }
}

} // verus!
