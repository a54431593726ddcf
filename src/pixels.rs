//! Colors and the mapping from primality outcomes to pixels.
use vstd::prelude::*;

verus! {

/// An RGB color with one byte per channel.
#[derive(Clone, Copy, Debug, PartialEq, Eq, Structural)]
pub struct Color {
    pub red: u8,
    pub green: u8,
    pub blue: u8,
}

impl Color {
    /// The color with the given channels.
    pub fn new(red: u8, green: u8, blue: u8) -> (c: Color)
        ensures
            c == (Color { red, green, blue }),
    {
        Color { red, green, blue }
    }
}

/// The pixel for each outcome: `prime_color` where it is true, else `composite_color`.
pub open spec fn pixels_of(
    outcomes: Seq<bool>,
    prime_color: Color,
    composite_color: Color,
) -> Seq<Color> {
    Seq::new(outcomes.len(), |i: int| if outcomes[i] { prime_color } else { composite_color })
}

/// Maps each outcome to its own copy of the prime or the composite color.
pub fn map_pixels(outcomes: &Vec<bool>, prime_color: Color, composite_color: Color) -> (r: Vec<
    Color,
>)
    ensures
        r@ == pixels_of(outcomes@, prime_color, composite_color),
{
    let mut image: Vec<Color> = Vec::new();
    let mut i: usize = 0;
    while i < outcomes.len()
        invariant
            i <= outcomes@.len(),
            image@ == pixels_of(outcomes@, prime_color, composite_color).subrange(0, i as int),
        decreases outcomes@.len() - i,
    {
        if outcomes[i] {
            image.push(Color { red: prime_color.red, green: prime_color.green, blue: prime_color.blue });
        } else {
            image.push(
                Color {
                    red: composite_color.red,
                    green: composite_color.green,
                    blue: composite_color.blue,
                },
            );
        }
        i = i + 1;
        assert(image@ =~= pixels_of(outcomes@, prime_color, composite_color).subrange(0, i as int));
    }
    assert(image@ =~= pixels_of(outcomes@, prime_color, composite_color));
    image
}

} // verus!
