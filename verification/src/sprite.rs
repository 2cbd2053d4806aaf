//! The mushroom picture that slides across the matrix when the mode switches.

use vstd::prelude::*;
use crate::graphics::RGB;
use crate::graphics::convert_flatvec_to_xyvec;
use crate::graphics::cells;
use crate::graphics::flat_graphic;

verus! {

/// Width and height of the mushroom picture, in pixels.
pub const ONE_UP_SIZE: usize = 16;

/// The colour that stands for a transparent pixel in the mushroom picture.
pub open spec fn one_up_alpha() -> RGB {
    RGB { r: 233, g: 233, b: 233 }
}

/// The mushroom picture: sixteen rows of sixteen pixels, the top row first,
/// three bytes per pixel in the order red, green, blue.
pub const ONE_UP_PIXELS: [u8; 768] = [
    233, 233, 233, 233, 233, 233, 233, 233, 233, 233, 233, 233, 233, 233, 233, 0, 0, 0, 1, 0, 1, 1, 0, 1, 0, 0, 0, 0, 0, 0, 233, 233, 233, 233, 233, 233, 233, 233, 233, 233, 233, 233, 233, 233, 233, 233, 233, 233,
    233, 233, 233, 233, 233, 233, 233, 233, 233, 233, 233, 233, 0, 0, 0, 0, 0, 0, 255, 255, 255, 83, 198, 24, 82, 198, 25, 255, 255, 255, 0, 0, 0, 233, 233, 233, 233, 233, 233, 233, 233, 233, 233, 233, 233, 233, 233, 233,
    233, 233, 233, 233, 233, 233, 233, 233, 233, 0, 0, 0, 254, 255, 254, 255, 254, 255, 255, 255, 254, 82, 199, 24, 83, 198, 24, 255, 255, 255, 255, 255, 255, 255, 255, 255, 0, 1, 0, 233, 233, 233, 233, 233, 233, 233, 233, 233,
    233, 233, 233, 233, 233, 233, 0, 0, 0, 82, 198, 24, 254, 255, 255, 255, 255, 255, 83, 199, 24, 82, 199, 24, 82, 198, 24, 82, 198, 24, 255, 255, 254, 255, 255, 255, 83, 198, 24, 0, 0, 0, 233, 233, 233, 233, 233, 233,
    233, 233, 233, 1, 0, 0, 255, 255, 255, 82, 199, 24, 82, 198, 25, 83, 198, 25, 82, 198, 25, 82, 198, 25, 82, 198, 25, 83, 199, 24, 82, 198, 24, 82, 198, 25, 83, 198, 25, 254, 255, 255, 0, 1, 1, 233, 233, 233,
    233, 233, 233, 0, 0, 0, 254, 255, 255, 255, 255, 255, 82, 198, 25, 82, 198, 24, 255, 255, 255, 255, 255, 255, 254, 255, 254, 255, 255, 255, 82, 198, 25, 83, 198, 24, 255, 255, 255, 255, 255, 254, 1, 0, 0, 233, 233, 233,
    0, 0, 1, 255, 255, 255, 255, 255, 255, 255, 255, 255, 82, 198, 24, 255, 255, 255, 255, 255, 255, 255, 255, 255, 255, 255, 254, 255, 254, 255, 255, 255, 254, 82, 198, 24, 255, 254, 255, 254, 254, 254, 254, 254, 255, 1, 0, 0,
    0, 0, 1, 255, 254, 255, 255, 255, 254, 255, 254, 255, 82, 199, 24, 255, 254, 255, 255, 254, 255, 254, 255, 255, 255, 255, 254, 255, 255, 255, 255, 255, 255, 82, 198, 25, 255, 254, 255, 255, 255, 255, 255, 254, 255, 0, 0, 0,
    1, 0, 1, 254, 255, 255, 255, 255, 255, 82, 198, 24, 82, 198, 24, 255, 255, 255, 255, 255, 255, 255, 255, 255, 255, 255, 255, 255, 255, 255, 255, 255, 255, 82, 198, 24, 82, 198, 24, 254, 254, 255, 254, 255, 255, 0, 0, 0,
    0, 0, 1, 82, 198, 24, 83, 199, 24, 83, 198, 24, 82, 198, 24, 82, 198, 24, 255, 254, 255, 255, 254, 254, 255, 255, 254, 255, 254, 255, 82, 198, 24, 82, 198, 24, 82, 198, 24, 82, 199, 24, 82, 198, 25, 1, 0, 0,
    1, 0, 1, 82, 198, 25, 82, 198, 24, 0, 0, 0, 0, 0, 0, 0, 0, 0, 1, 0, 0, 0, 1, 1, 0, 0, 1, 0, 0, 0, 0, 1, 0, 0, 0, 0, 1, 0, 0, 82, 198, 24, 82, 199, 24, 0, 0, 0,
    233, 233, 233, 0, 0, 0, 0, 0, 0, 0, 0, 0, 254, 255, 255, 254, 255, 254, 1, 0, 0, 255, 254, 255, 255, 255, 255, 1, 0, 1, 254, 255, 255, 255, 255, 255, 0, 0, 0, 1, 0, 0, 0, 0, 0, 233, 233, 233,
    233, 233, 233, 233, 233, 233, 0, 0, 0, 255, 255, 255, 255, 255, 255, 254, 255, 255, 0, 0, 0, 255, 254, 255, 255, 255, 255, 1, 0, 0, 255, 254, 255, 255, 255, 254, 255, 255, 255, 0, 0, 0, 233, 233, 233, 233, 233, 233,
    233, 233, 233, 233, 233, 233, 0, 1, 0, 255, 255, 254, 255, 255, 255, 255, 255, 254, 255, 255, 254, 255, 255, 255, 255, 255, 254, 255, 254, 255, 254, 254, 254, 255, 254, 254, 255, 254, 255, 0, 0, 0, 233, 233, 233, 233, 233, 233,
    233, 233, 233, 233, 233, 233, 233, 233, 233, 1, 0, 0, 255, 254, 255, 255, 254, 255, 255, 255, 255, 254, 254, 255, 255, 255, 255, 254, 255, 255, 255, 255, 255, 255, 255, 254, 1, 1, 0, 233, 233, 233, 233, 233, 233, 233, 233, 233,
    233, 233, 233, 233, 233, 233, 233, 233, 233, 233, 233, 233, 1, 0, 0, 0, 0, 0, 0, 0, 0, 0, 0, 0, 0, 0, 1, 0, 1, 0, 0, 0, 0, 0, 1, 0, 1, 1, 0, 233, 233, 233, 233, 233, 233, 233, 233, 233,
];

/// The bytes of the mushroom picture as a sequence.
pub closed spec fn one_up_pixels() -> Seq<u8> {
    ONE_UP_PIXELS@
}

/// The bytes of the mushroom picture.
pub fn one_up() -> (r: Vec<u8>)
    ensures
        r@ == one_up_pixels(),
        r@.len() == 3 * ONE_UP_SIZE * ONE_UP_SIZE,
{
    let mut pixels: Vec<u8> = Vec::new();
    let mut i: usize = 0;
    while i < 768
        invariant
            0 <= i <= 768,
            pixels@ == ONE_UP_PIXELS@.subrange(0, i as int),
        decreases 768 - i,
    {
        pixels.push(ONE_UP_PIXELS[i]);
        assert(pixels@ =~= ONE_UP_PIXELS@.subrange(0, i as int + 1));
        i += 1;
    }
    assert(pixels@ =~= ONE_UP_PIXELS@);
    pixels
}

/// The mushroom picture as a graphic, with its background transparent.
pub open spec fn one_up_graphic() -> Seq<Seq<Option<RGB>>> {
    flat_graphic(one_up_pixels(), 3 * ONE_UP_SIZE as int, ONE_UP_SIZE as int, Some(one_up_alpha()))
}

/// The mushroom picture as a graphic, with its background transparent.
pub fn vecvec_one_up() -> (r: Vec<Vec<Option<RGB>>>)
    ensures
        cells(r@) == one_up_graphic(),
{
    let one_up = one_up();
    convert_flatvec_to_xyvec(one_up, 48, 16, Some(RGB { r: 233u8, g: 233u8, b: 233u8 }))
}

} // verus!
