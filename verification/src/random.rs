//! Random colours, drawn from the thread-local generator of the `rand`
//! crate.

use crate::color::Color;
use rand::rngs::ThreadRng;
use rand::Rng;
use vstd::prelude::*;

verus! {

/// `rand::rngs::ThreadRng`, a handle to the thread-local generator.
/// Nothing is known of its state.
#[verifier::external_type_specification]
#[verifier::external_body]
pub struct ExThreadRng(ThreadRng);

/// `rand::thread_rng`: returns a handle to the thread-local generator,
/// seeding it from the operating system on first use. Nothing is claimed
/// of the handle.
pub assume_specification[ rand::thread_rng ]() -> (rng: ThreadRng)
;

/// `Rng::gen_range` on a `ThreadRng` with the inclusive range
/// `low..=high` of bytes: the value returned lies in that range. The
/// call panics on an empty range, which `low <= high` rules out.
#[verifier::external_body]
fn random_byte(rng: &mut ThreadRng, low: u8, high: u8) -> (value: u8)
    requires
        low <= high,
    ensures
        low <= value <= high,
{
    rng.gen_range(low..=high)
}

/// A colour whose three channels are drawn independently and uniformly
/// from the full range of a byte.
///
/// Every colour is a possible outcome, so nothing is promised of the
/// result beyond its type: each channel is a byte, between 0 and 255.
/// What a rendering does with the colours drawn is stated, for every
/// palette, by `render_with_palette`.
fn random_color(rng: &mut ThreadRng) -> (color: Color) {
    let red = random_byte(rng, 0, 255);
    let green = random_byte(rng, 0, 255);
    let blue = random_byte(rng, 0, 255);
    Color { red, green, blue }
}

/// A list of `count` random colours.
pub fn random_palette(count: usize) -> (palette: Vec<Color>)
    ensures
        palette@.len() == count,
{
    let mut rng = rand::thread_rng();
    let mut palette: Vec<Color> = Vec::new();
    while palette.len() < count
        invariant
            palette@.len() <= count,
        decreases count - palette@.len(),
    {
        let color = random_color(&mut rng);
        palette.push(color);
    }
    palette
}

} // verus!
