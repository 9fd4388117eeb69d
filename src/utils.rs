use rand::Rng;
use vstd::prelude::*;

verus! {

/// An RGBA colour.
#[derive(Clone, Copy, Debug, PartialEq, Eq, Structural)]
pub struct Color {
    pub r: u8,
    pub g: u8,
    pub b: u8,
    pub a: u8,
}

impl Color {
    pub open spec fn spec_rgba(r: u8, g: u8, b: u8, a: u8) -> Color {
        Color { r, g, b, a }
    }

    pub fn rgba(r: u8, g: u8, b: u8, a: u8) -> (c: Color)
        ensures
            c == Color::spec_rgba(r, g, b, a),
    {
        Color { r, g, b, a }
    }

    pub open spec fn spec_gray() -> Color {
        Color::spec_rgba(100, 100, 100, 255)
    }

    pub open spec fn spec_dark_gray() -> Color {
        Color::spec_rgba(30, 30, 30, 255)
    }

    pub open spec fn spec_light_gray() -> Color {
        Color::spec_rgba(200, 200, 200, 255)
    }

    pub open spec fn spec_red() -> Color {
        Color::spec_rgba(255, 0, 0, 255)
    }

    pub open spec fn spec_blue() -> Color {
        Color::spec_rgba(0, 0, 255, 255)
    }

    pub fn gray() -> (c: Color)
        ensures
            c == Color::spec_gray(),
    {
        Color::rgba(100, 100, 100, 255)
    }

    pub fn dark_gray() -> (c: Color)
        ensures
            c == Color::spec_dark_gray(),
    {
        Color::rgba(30, 30, 30, 255)
    }

    pub fn light_gray() -> (c: Color)
        ensures
            c == Color::spec_light_gray(),
    {
        Color::rgba(200, 200, 200, 255)
    }

    pub fn red() -> (c: Color)
        ensures
            c == Color::spec_red(),
    {
        Color::rgba(255, 0, 0, 255)
    }

    pub fn blue() -> (c: Color)
        ensures
            c == Color::spec_blue(),
    {
        Color::rgba(0, 0, 255, 255)
    }
}

#[verifier::external_type_specification]
#[verifier::external_body]
pub struct ExInstant(std::time::Instant);

/// Relies on `Instant::now`: a reading of the monotonic clock; nothing is known of its value.
pub assume_specification[ std::time::Instant::now ]() -> std::time::Instant;

/// Relies on `Instant::elapsed`: the time since the reading; nothing is known of its value.
pub assume_specification[ std::time::Instant::elapsed ](i: &std::time::Instant) -> std::time::Duration;

/// Relies on `Duration::as_millis`: the whole milliseconds of a duration.
pub assume_specification[ core::time::Duration::as_millis ](d: &core::time::Duration) -> u128;

/// Measures the milliseconds passed since it was created or last reset.
pub struct MillisTimer {
    last: std::time::Instant,
}

impl MillisTimer {
    pub fn new_now() -> (t: MillisTimer) {
        MillisTimer { last: std::time::Instant::now() }
    }

    pub fn elapsed_ms(&self) -> (ms: u128) {
        let d = self.last.elapsed();
        d.as_millis()
    }

    pub fn reset(&mut self) {
        self.last = std::time::Instant::now();
    }
}

/// Relies on `rand::Rng::gen_range` over `thread_rng`: a value drawn from the
/// inclusive range `[min, max]`; it panics on an empty range, hence `min <= max`.
#[verifier::external_body]
pub fn rand_inclusive(min: i32, max: i32) -> (r: i32)
    requires
        min <= max,
    ensures
        min <= r <= max,
{
    let mut rng = rand::thread_rng();
    rng.gen_range(min..=max)
}

} // verus!
