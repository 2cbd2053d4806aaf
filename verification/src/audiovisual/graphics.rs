//! The graphic elements of the device and their painting on its matrix.

use vstd::prelude::*;
use crate::config::LEDS_MAX_X;
use crate::config::LEDS_MAX_Y;
use crate::mode::EqTunerModeEnum;
use crate::audiovisual::audio_tuner::NoteName;
use crate::graphics::cells;
use crate::graphics::painted;
use crate::graphics::painted_rgb;
use crate::graphics::flat_graphic;
use crate::sprite::one_up_graphic;
use crate::sprite::one_up_pixels;

pub use crate::graphics::RGB;

verus! {

/// The difference of two colour channels.
pub open spec fn channel_diff(minuend: u8, subtrahend: u8) -> i16 {
    (minuend - subtrahend) as i16
}

/// A colour channel moved by a difference. A sum beyond the range of a channel
/// wraps around.
pub open spec fn channel_shifted(channel: u8, diff: i16) -> u8 {
    ((channel + diff) % 256) as u8
}

/// Moves a colour channel by a difference.
pub fn shift_channel(channel: u8, diff: i16) -> (r: u8)
    ensures
        r == channel_shifted(channel, diff),
        0 <= channel + diff <= 255 ==> r == channel + diff,
{
    let sum: i32 = channel as i32 + diff as i32;
    let lifted: u32 = (sum + 32768) as u32;
    assert(lifted % 256 == (channel + diff) % 256);
    (lifted % 256) as u8
}

impl RGB {
    /// The difference between this colour and another, channel by channel, in
    /// the order red, green, blue.
    pub fn subtract(&mut self, other_color: RGB) -> (diff: [i16; 3])
        ensures
            *final(self) == *old(self),
            diff@ == seq![
                channel_diff(old(self).r, other_color.r),
                channel_diff(old(self).g, other_color.g),
                channel_diff(old(self).b, other_color.b),
            ],
    {
        let diff_array: [i16; 3] = [
            self.r as i16 - other_color.r as i16,
            self.g as i16 - other_color.g as i16,
            self.b as i16 - other_color.b as i16,
        ];
        assert(diff_array@ =~= seq![
            channel_diff(self.r, other_color.r),
            channel_diff(self.g, other_color.g),
            channel_diff(self.b, other_color.b),
        ]);
        diff_array
    }

    /// This colour with a difference applied to it, channel by channel.
    pub fn return_new_applied_diff(&mut self, diff: [i16; 3]) -> (r: RGB)
        ensures
            *final(self) == *old(self),
            r == (RGB {
                r: channel_shifted(old(self).r, diff@[0]),
                g: channel_shifted(old(self).g, diff@[1]),
                b: channel_shifted(old(self).b, diff@[2]),
            }),
    {
        RGB {
            r: shift_channel(self.r, diff[0]),
            g: shift_channel(self.g, diff[1]),
            b: shift_channel(self.b, diff[2]),
        }
    }
}

/// A difference applied to the colour it was taken against gives back the
/// colour it was taken from.
pub proof fn lemma_applied_diff_restores(from: RGB, against: RGB)
    ensures
        channel_shifted(against.r, channel_diff(from.r, against.r)) == from.r,
        channel_shifted(against.g, channel_diff(from.g, against.g)) == from.g,
        channel_shifted(against.b, channel_diff(from.b, against.b)) == from.b,
{
}

/// Paints a graphic on the byte canvas of the device's matrix, three bytes per
/// LED in the order green, red, blue, with the bottom left cell of the graphic
/// at (`x_offset`, `y_offset`).
pub fn paint_element(pixelcolors: &mut Vec<u8>, graphic: &Vec<Vec<Option<RGB>>>, x_offset: i32, y_offset: i32)
    requires
        old(pixelcolors)@.len() >= 3 * (LEDS_MAX_X * LEDS_MAX_Y),
    ensures
        final(pixelcolors)@ == painted(
            old(pixelcolors)@,
            cells(graphic@),
            x_offset as int,
            y_offset as int,
            LEDS_MAX_X as int,
            LEDS_MAX_Y as int,
        ),
{
    crate::graphics::paint_element(pixelcolors, graphic, x_offset, y_offset, LEDS_MAX_X, LEDS_MAX_Y);
}

/// Paints a graphic on the colour canvas of the device's matrix, one colour per
/// LED, with the bottom left cell of the graphic at (`x_offset`, `y_offset`).
pub fn paint_element_rgb(
    pixelcolors: &mut Vec<RGB>,
    graphic: &Vec<Vec<Option<RGB>>>,
    x_offset: i32,
    y_offset: i32,
)
    requires
        old(pixelcolors)@.len() >= LEDS_MAX_X * LEDS_MAX_Y,
    ensures
        final(pixelcolors)@ == painted_rgb(
            old(pixelcolors)@,
            cells(graphic@),
            x_offset as int,
            y_offset as int,
            LEDS_MAX_X as int,
            LEDS_MAX_Y as int,
        ),
{
    crate::graphics::paint_element_rgb(
        pixelcolors,
        graphic,
        x_offset,
        y_offset,
        LEDS_MAX_X,
        LEDS_MAX_Y,
    );
}

/// The bits of a bitmap, row by row, the top row first.
pub open spec fn bits(bitmap: Seq<Vec<bool>>) -> Seq<Seq<bool>> {
    Seq::new(bitmap.len(), |i: int| bitmap[i]@)
}

/// The graphic that a bitmap gives in one colour: as wide as the top row of
/// the bitmap, with the colour where a bit is set and transparent elsewhere.
pub open spec fn coloured(bitmap: Seq<Seq<bool>>, color: RGB) -> Seq<Seq<Option<RGB>>> {
    Seq::new(
        bitmap.len(),
        |row: int|
            Seq::new(
                (if bitmap.len() == 0 {
                    0
                } else {
                    bitmap[0].len()
                }),
                |col: int|
                    if col < bitmap[row].len() && bitmap[row][col] {
                        Some(color)
                    } else {
                        None
                    },
            ),
    )
}

/// Turns a bitmap into a graphic of one colour.
pub fn convert_vecvecbool_to_xy_rgb_vec(src: Vec<Vec<bool>>, color: RGB) -> (dest: Vec<Vec<Option<RGB>>>)
    ensures
        cells(dest@) == coloured(bits(src@), color),
{
    let rows: usize = src.len();
    let cols: usize = if rows == 0 {
        0
    } else {
        src[0].len()
    };
    let mut dest: Vec<Vec<Option<RGB>>> = Vec::new();
    let mut row: usize = 0;
    while row < rows
        invariant
            0 <= row <= rows,
            rows == src@.len(),
            cols == (if rows == 0 {
                0
            } else {
                src@[0]@.len()
            }),
            dest@.len() == row,
            forall|a: int|
                0 <= a < row ==> (#[trigger] dest@[a])@ == coloured(bits(src@), color)[a],
        decreases rows - row,
    {
        let mut fill_row: Vec<Option<RGB>> = Vec::new();
        let mut col: usize = 0;
        while col < cols
            invariant
                0 <= col <= cols,
                0 <= row < rows,
                rows == src@.len(),
                cols == (if rows == 0 {
                    0
                } else {
                    src@[0]@.len()
                }),
                fill_row@.len() == col,
                forall|j: int|
                    0 <= j < col ==> #[trigger] fill_row@[j] == coloured(bits(src@), color)[row as int][j],
            decreases cols - col,
        {
            if col < src[row].len() && src[row][col] {
                fill_row.push(Some(RGB { r: color.r, g: color.g, b: color.b }));
            } else {
                fill_row.push(None);
            }
            col += 1;
        }
        assert(fill_row@ =~= coloured(bits(src@), color)[row as int]);
        dest.push(fill_row);
        row += 1;
    }
    assert(cells(dest@) =~= coloured(bits(src@), color));
    dest
}

/// Turns a flat picture of `image_height` rows of `image_width` pixels each,
/// three bytes to a pixel in the order red, green, blue, into a graphic. Pixels
/// of the colour `alpha` become transparent.
pub fn convert_flatvec_to_xy_rgb_vec(src: Vec<u8>, image_width: usize, image_height: usize, alpha: Option<RGB>) -> (r:
    Vec<Vec<Option<RGB>>>)
    requires
        src@.len() >= 3 * image_width * image_height,
    ensures
        cells(r@) == flat_graphic(src@, 3 * image_width, image_height as int, alpha),
{
    if image_height == 0 {
        let r: Vec<Vec<Option<RGB>>> = Vec::new();
        assert(cells(r@) =~= flat_graphic(src@, 3 * image_width, image_height as int, alpha));
        return r;
    }
    assert(3 * image_width <= 3 * image_width * image_height) by (nonlinear_arith)
        requires
            image_height >= 1,
            image_width >= 0,
    ;
    assert(src.len() <= usize::MAX);
    let num_colors_width: usize = image_width * 3;
    crate::graphics::convert_flatvec_to_xyvec(src, num_colors_width, image_height, alpha)
}

/// The mushroom picture as a graphic, with its background transparent.
pub fn vecvec_one_up() -> (r: Vec<Vec<Option<RGB>>>)
    ensures
        cells(r@) == one_up_graphic(),
{
    crate::sprite::vecvec_one_up()
}

/// The bytes of the mushroom picture.
pub fn one_up() -> (r: Vec<u8>)
    ensures
        r@ == one_up_pixels(),
{
    crate::sprite::one_up()
}

/// A horizontal line of `width` cells of one colour.
pub open spec fn line_graphic(width: int, color: RGB) -> Seq<Seq<Option<RGB>>> {
    seq![Seq::new(width as nat, |col: int| Some(color))]
}

/// A horizontal line of `width` cells of one colour.
pub fn line(width: usize, color: RGB) -> (r: Vec<Vec<Option<RGB>>>)
    ensures
        cells(r@) == line_graphic(width as int, color),
{
    let mut row: Vec<Option<RGB>> = Vec::new();
    let mut col: usize = 0;
    while col < width
        invariant
            0 <= col <= width,
            row@.len() == col,
            forall|j: int| 0 <= j < col ==> #[trigger] row@[j] == Some(color),
        decreases width - col,
    {
        row.push(Some(RGB { r: color.r, g: color.g, b: color.b }));
        col += 1;
    }
    let r = vec![row];
    assert(r@[0]@ =~= line_graphic(width as int, color)[0]);
    assert(cells(r@) =~= line_graphic(width as int, color));
    r
}

/// A single cell of one colour.
pub open spec fn dot_graphic(color: RGB) -> Seq<Seq<Option<RGB>>> {
    seq![seq![Some(color)]]
}

/// A single cell of one colour.
pub fn dot(color: RGB) -> (r: Vec<Vec<Option<RGB>>>)
    ensures
        cells(r@) == dot_graphic(color),
{
    let r = vec![vec![Some(RGB { r: color.r, g: color.g, b: color.b })]];
    assert(r@[0]@ =~= dot_graphic(color)[0]);
    assert(cells(r@) =~= dot_graphic(color));
    r
}

/// The bitmap that shows a note on the matrix. Natural notes are three or four
/// cells wide; sharp notes carry a cross to their upper right.
pub open spec fn note_glyph(note: NoteName) -> Seq<Seq<bool>> {
    match note {
        NoteName::A => seq![
            seq![false, true, false],
            seq![true, false, true],
            seq![true, true, true],
            seq![true, false, true],
        ],
        NoteName::ASharp => seq![
            seq![false, false, false, false, false, true, false],
            seq![false, false, false, false, true, true, true],
            seq![false, true, false, false, false, true, false],
            seq![true, false, true, false, false, false, false],
            seq![true, true, true, false, false, false, false],
            seq![true, false, true, false, false, false, false],
        ],
        NoteName::B => seq![
            seq![true, true, false],
            seq![true, false, true],
            seq![true, true, false],
            seq![true, false, true],
            seq![true, true, false],
        ],
        NoteName::C => seq![
            seq![false, true, true],
            seq![true, false, false],
            seq![true, false, false],
            seq![false, true, true],
        ],
        NoteName::CSharp => seq![
            seq![false, false, false, false, false, true, false],
            seq![false, true, true, false, true, true, true],
            seq![true, false, false, false, false, true, false],
            seq![true, false, false, false, false, false, false],
            seq![true, false, false, false, false, false, false],
            seq![false, true, true, false, false, false, false],
        ],
        NoteName::D => seq![
            seq![true, true, false],
            seq![true, false, true],
            seq![true, false, true],
            seq![true, true, false],
        ],
        NoteName::DSharp => seq![
            seq![false, false, false, false, false, true, false],
            seq![true, true, false, false, true, true, true],
            seq![true, false, true, false, false, true, false],
            seq![true, false, true, false, false, false, false],
            seq![true, true, false, false, false, false, false],
            seq![false, false, false, false, false, false, false],
        ],
        NoteName::E => seq![
            seq![true, true, true],
            seq![true, false, false],
            seq![true, true, false],
            seq![true, false, false],
            seq![true, true, true],
        ],
        NoteName::F => seq![
            seq![true, true, true],
            seq![true, false, false],
            seq![true, true, true],
            seq![true, false, false],
            seq![true, false, false],
        ],
        NoteName::FSharp => seq![
            seq![false, false, false, false, false, true, false],
            seq![true, true, true, false, true, true, true],
            seq![true, false, false, false, false, true, false],
            seq![true, true, true, false, false, false, false],
            seq![true, false, false, false, false, false, false],
            seq![true, false, false, false, false, false, false],
        ],
        NoteName::G => seq![
            seq![false, true, true, false],
            seq![true, false, false, false],
            seq![true, false, true, true],
            seq![true, false, false, true],
            seq![false, true, true, false],
        ],
        NoteName::GSharp => seq![
            seq![false, false, false, false, false, true, false],
            seq![false, true, true, false, true, true, true],
            seq![true, false, false, false, false, true, false],
            seq![true, false, true, true, false, false, false],
            seq![true, false, false, true, false, false, false],
            seq![false, true, true, false, false, false, false],
        ],
    }
}

/// A note as a bitmap.
pub struct GraphicalNote {
    pub matrix: Vec<Vec<bool>>,
}

impl GraphicalNote {
    pub fn new(note: &NoteName) -> (r: Self)
        ensures
            bits(r.matrix@) == note_glyph(*note),
    {
        let matrix = match note {
            NoteName::A => {
                let matrix = vec![
                    vec![false, true, false],
                    vec![true, false, true],
                    vec![true, true, true],
                    vec![true, false, true],
                ];
                assert(matrix@[0]@ =~= note_glyph(NoteName::A)[0]);
                assert(matrix@[1]@ =~= note_glyph(NoteName::A)[1]);
                assert(matrix@[2]@ =~= note_glyph(NoteName::A)[2]);
                assert(matrix@[3]@ =~= note_glyph(NoteName::A)[3]);
                matrix
            },
            NoteName::ASharp => {
                let matrix = vec![
                    vec![false, false, false, false, false, true, false],
                    vec![false, false, false, false, true, true, true],
                    vec![false, true, false, false, false, true, false],
                    vec![true, false, true, false, false, false, false],
                    vec![true, true, true, false, false, false, false],
                    vec![true, false, true, false, false, false, false],
                ];
                assert(matrix@[0]@ =~= note_glyph(NoteName::ASharp)[0]);
                assert(matrix@[1]@ =~= note_glyph(NoteName::ASharp)[1]);
                assert(matrix@[2]@ =~= note_glyph(NoteName::ASharp)[2]);
                assert(matrix@[3]@ =~= note_glyph(NoteName::ASharp)[3]);
                assert(matrix@[4]@ =~= note_glyph(NoteName::ASharp)[4]);
                assert(matrix@[5]@ =~= note_glyph(NoteName::ASharp)[5]);
                matrix
            },
            NoteName::B => {
                let matrix = vec![
                    vec![true, true, false],
                    vec![true, false, true],
                    vec![true, true, false],
                    vec![true, false, true],
                    vec![true, true, false],
                ];
                assert(matrix@[0]@ =~= note_glyph(NoteName::B)[0]);
                assert(matrix@[1]@ =~= note_glyph(NoteName::B)[1]);
                assert(matrix@[2]@ =~= note_glyph(NoteName::B)[2]);
                assert(matrix@[3]@ =~= note_glyph(NoteName::B)[3]);
                assert(matrix@[4]@ =~= note_glyph(NoteName::B)[4]);
                matrix
            },
            NoteName::C => {
                let matrix = vec![
                    vec![false, true, true],
                    vec![true, false, false],
                    vec![true, false, false],
                    vec![false, true, true],
                ];
                assert(matrix@[0]@ =~= note_glyph(NoteName::C)[0]);
                assert(matrix@[1]@ =~= note_glyph(NoteName::C)[1]);
                assert(matrix@[2]@ =~= note_glyph(NoteName::C)[2]);
                assert(matrix@[3]@ =~= note_glyph(NoteName::C)[3]);
                matrix
            },
            NoteName::CSharp => {
                let matrix = vec![
                    vec![false, false, false, false, false, true, false],
                    vec![false, true, true, false, true, true, true],
                    vec![true, false, false, false, false, true, false],
                    vec![true, false, false, false, false, false, false],
                    vec![true, false, false, false, false, false, false],
                    vec![false, true, true, false, false, false, false],
                ];
                assert(matrix@[0]@ =~= note_glyph(NoteName::CSharp)[0]);
                assert(matrix@[1]@ =~= note_glyph(NoteName::CSharp)[1]);
                assert(matrix@[2]@ =~= note_glyph(NoteName::CSharp)[2]);
                assert(matrix@[3]@ =~= note_glyph(NoteName::CSharp)[3]);
                assert(matrix@[4]@ =~= note_glyph(NoteName::CSharp)[4]);
                assert(matrix@[5]@ =~= note_glyph(NoteName::CSharp)[5]);
                matrix
            },
            NoteName::D => {
                let matrix = vec![
                    vec![true, true, false],
                    vec![true, false, true],
                    vec![true, false, true],
                    vec![true, true, false],
                ];
                assert(matrix@[0]@ =~= note_glyph(NoteName::D)[0]);
                assert(matrix@[1]@ =~= note_glyph(NoteName::D)[1]);
                assert(matrix@[2]@ =~= note_glyph(NoteName::D)[2]);
                assert(matrix@[3]@ =~= note_glyph(NoteName::D)[3]);
                matrix
            },
            NoteName::DSharp => {
                let matrix = vec![
                    vec![false, false, false, false, false, true, false],
                    vec![true, true, false, false, true, true, true],
                    vec![true, false, true, false, false, true, false],
                    vec![true, false, true, false, false, false, false],
                    vec![true, true, false, false, false, false, false],
                    vec![false, false, false, false, false, false, false],
                ];
                assert(matrix@[0]@ =~= note_glyph(NoteName::DSharp)[0]);
                assert(matrix@[1]@ =~= note_glyph(NoteName::DSharp)[1]);
                assert(matrix@[2]@ =~= note_glyph(NoteName::DSharp)[2]);
                assert(matrix@[3]@ =~= note_glyph(NoteName::DSharp)[3]);
                assert(matrix@[4]@ =~= note_glyph(NoteName::DSharp)[4]);
                assert(matrix@[5]@ =~= note_glyph(NoteName::DSharp)[5]);
                matrix
            },
            NoteName::E => {
                let matrix = vec![
                    vec![true, true, true],
                    vec![true, false, false],
                    vec![true, true, false],
                    vec![true, false, false],
                    vec![true, true, true],
                ];
                assert(matrix@[0]@ =~= note_glyph(NoteName::E)[0]);
                assert(matrix@[1]@ =~= note_glyph(NoteName::E)[1]);
                assert(matrix@[2]@ =~= note_glyph(NoteName::E)[2]);
                assert(matrix@[3]@ =~= note_glyph(NoteName::E)[3]);
                assert(matrix@[4]@ =~= note_glyph(NoteName::E)[4]);
                matrix
            },
            NoteName::F => {
                let matrix = vec![
                    vec![true, true, true],
                    vec![true, false, false],
                    vec![true, true, true],
                    vec![true, false, false],
                    vec![true, false, false],
                ];
                assert(matrix@[0]@ =~= note_glyph(NoteName::F)[0]);
                assert(matrix@[1]@ =~= note_glyph(NoteName::F)[1]);
                assert(matrix@[2]@ =~= note_glyph(NoteName::F)[2]);
                assert(matrix@[3]@ =~= note_glyph(NoteName::F)[3]);
                assert(matrix@[4]@ =~= note_glyph(NoteName::F)[4]);
                matrix
            },
            NoteName::FSharp => {
                let matrix = vec![
                    vec![false, false, false, false, false, true, false],
                    vec![true, true, true, false, true, true, true],
                    vec![true, false, false, false, false, true, false],
                    vec![true, true, true, false, false, false, false],
                    vec![true, false, false, false, false, false, false],
                    vec![true, false, false, false, false, false, false],
                ];
                assert(matrix@[0]@ =~= note_glyph(NoteName::FSharp)[0]);
                assert(matrix@[1]@ =~= note_glyph(NoteName::FSharp)[1]);
                assert(matrix@[2]@ =~= note_glyph(NoteName::FSharp)[2]);
                assert(matrix@[3]@ =~= note_glyph(NoteName::FSharp)[3]);
                assert(matrix@[4]@ =~= note_glyph(NoteName::FSharp)[4]);
                assert(matrix@[5]@ =~= note_glyph(NoteName::FSharp)[5]);
                matrix
            },
            NoteName::G => {
                let matrix = vec![
                    vec![false, true, true, false],
                    vec![true, false, false, false],
                    vec![true, false, true, true],
                    vec![true, false, false, true],
                    vec![false, true, true, false],
                ];
                assert(matrix@[0]@ =~= note_glyph(NoteName::G)[0]);
                assert(matrix@[1]@ =~= note_glyph(NoteName::G)[1]);
                assert(matrix@[2]@ =~= note_glyph(NoteName::G)[2]);
                assert(matrix@[3]@ =~= note_glyph(NoteName::G)[3]);
                assert(matrix@[4]@ =~= note_glyph(NoteName::G)[4]);
                matrix
            },
            NoteName::GSharp => {
                let matrix = vec![
                    vec![false, false, false, false, false, true, false],
                    vec![false, true, true, false, true, true, true],
                    vec![true, false, false, false, false, true, false],
                    vec![true, false, true, true, false, false, false],
                    vec![true, false, false, true, false, false, false],
                    vec![false, true, true, false, false, false, false],
                ];
                assert(matrix@[0]@ =~= note_glyph(NoteName::GSharp)[0]);
                assert(matrix@[1]@ =~= note_glyph(NoteName::GSharp)[1]);
                assert(matrix@[2]@ =~= note_glyph(NoteName::GSharp)[2]);
                assert(matrix@[3]@ =~= note_glyph(NoteName::GSharp)[3]);
                assert(matrix@[4]@ =~= note_glyph(NoteName::GSharp)[4]);
                assert(matrix@[5]@ =~= note_glyph(NoteName::GSharp)[5]);
                matrix
            },
        };
        assert(bits(matrix@) =~= note_glyph(*note));
        GraphicalNote { matrix }
    }
}

/// The letters EQ as a bitmap.
pub open spec fn eq_label() -> Seq<Seq<bool>> {
    seq![
        seq![true, true, false, true, true, true],
        seq![true, false, false, true, false, true],
        seq![true, true, false, true, true, true],
        seq![true, false, false, false, false, true],
        seq![true, true, false, false, false, true],
    ]
}

/// The letters EQ as a bitmap.
pub fn vecvecbool_eq() -> (r: Vec<Vec<bool>>)
    ensures
        bits(r@) == eq_label(),
{
    let r = vec![
        vec![true, true, false, true, true, true],
        vec![true, false, false, true, false, true],
        vec![true, true, false, true, true, true],
        vec![true, false, false, false, false, true],
        vec![true, true, false, false, false, true],
    ];
    assert(r@[0]@ =~= eq_label()[0]);
    assert(r@[1]@ =~= eq_label()[1]);
    assert(r@[2]@ =~= eq_label()[2]);
    assert(r@[3]@ =~= eq_label()[3]);
    assert(r@[4]@ =~= eq_label()[4]);
    assert(bits(r@) =~= eq_label());
    r
}

/// The letters TU as a bitmap.
pub open spec fn tuner_label() -> Seq<Seq<bool>> {
    seq![
        seq![true, true, true, false, false, false],
        seq![false, true, false, false, false, false],
        seq![false, true, false, true, false, true],
        seq![false, false, false, true, false, true],
        seq![false, false, false, true, true, true],
    ]
}

/// The letters TU as a bitmap.
pub fn vecvecbool_tuner() -> (r: Vec<Vec<bool>>)
    ensures
        bits(r@) == tuner_label(),
{
    let r = vec![
        vec![true, true, true, false, false, false],
        vec![false, true, false, false, false, false],
        vec![false, true, false, true, false, true],
        vec![false, false, false, true, false, true],
        vec![false, false, false, true, true, true],
    ];
    assert(r@[0]@ =~= tuner_label()[0]);
    assert(r@[1]@ =~= tuner_label()[1]);
    assert(r@[2]@ =~= tuner_label()[2]);
    assert(r@[3]@ =~= tuner_label()[3]);
    assert(r@[4]@ =~= tuner_label()[4]);
    assert(bits(r@) =~= tuner_label());
    r
}

/// Number of frames in which the mushroom slides across the matrix.
pub const SWITCH_ANIMATION_FRAMES: usize = 24;

/// The colour that fills the matrix while the mode switches.
pub open spec fn mode_colour(mode: EqTunerModeEnum) -> RGB {
    match mode {
        EqTunerModeEnum::Equalizer => RGB { r: 30, g: 1, b: 1 },
        EqTunerModeEnum::Tuner => RGB { r: 1, g: 1, b: 5 },
    }
}

/// The byte canvas of the device's matrix filled with one colour.
pub open spec fn filled_screen(color: RGB) -> Seq<u8> {
    Seq::new((3 * (LEDS_MAX_X * LEDS_MAX_Y)) as nat, |b: int| crate::graphics::channel(color, b % 3))
}

/// The label of a mode as a graphic.
pub open spec fn mode_label(mode: EqTunerModeEnum) -> Seq<Seq<Option<RGB>>> {
    match mode {
        EqTunerModeEnum::Equalizer => coloured(eq_label(), RGB { r: 0, g: 70, b: 50 }),
        EqTunerModeEnum::Tuner => coloured(tuner_label(), RGB { r: 0, g: 70, b: 50 }),
    }
}

/// Column of the mushroom in frame `k` of the animation that starts with the
/// mushroom at column `start`: it slides to the left on the way to the
/// equalizer and to the right on the way to the tuner, one column a frame.
pub open spec fn mushroom_column(mode: EqTunerModeEnum, start: int, k: int) -> int {
    match mode {
        EqTunerModeEnum::Equalizer => start - (k + 1),
        EqTunerModeEnum::Tuner => start + (k + 1),
    }
}

/// Frame `k` of the animation: the mushroom and the label of the mode on the
/// colour of the mode.
pub open spec fn animation_frame(mode: EqTunerModeEnum, start: int, k: int) -> Seq<u8> {
    painted(
        painted(
            filled_screen(mode_colour(mode)),
            one_up_graphic(),
            mushroom_column(mode, start, k),
            2,
            LEDS_MAX_X as int,
            LEDS_MAX_Y as int,
        ),
        mode_label(mode),
        1,
        23,
        LEDS_MAX_X as int,
        LEDS_MAX_Y as int,
    )
}

/// The screen that the animation ends on: a line and three dots on the colour
/// of the mode.
pub open spec fn closing_screen(mode: EqTunerModeEnum) -> Seq<u8> {
    let x = LEDS_MAX_X as int;
    let y = LEDS_MAX_Y as int;
    let dot = dot_graphic(RGB { r: 40, g: 0, b: 0 });
    let lined = painted(
        filled_screen(mode_colour(mode)),
        line_graphic(x, RGB { r: 255, g: 216, b: 0 }),
        0,
        16,
        x,
        y,
    );
    painted(painted(painted(lined, dot, 2, 20, x, y), dot, 4, 20, x, y), dot, 6, 20, x, y)
}

/// The frames to show when the mode has switched, one after the other, and the
/// screen to leave behind.
pub struct SwitchAnimation {
    pub frames: Vec<Vec<u8>>,
    pub closing_screen: Vec<u8>,
    pub switch_element_pos: i32,
}

/// Fills a byte canvas for the device's matrix with one colour.
pub fn fill_screen(color: RGB) -> (screen: Vec<u8>)
    ensures
        screen@ == filled_screen(color),
{
    let mut screen: Vec<u8> = Vec::new();
    let mut led: usize = 0;
    while led < LEDS_MAX_X * LEDS_MAX_Y
        invariant
            0 <= led <= LEDS_MAX_X * LEDS_MAX_Y,
            screen@.len() == 3 * led,
            forall|b: int| 0 <= b < 3 * led ==> #[trigger] screen@[b] == crate::graphics::channel(color, b % 3),
        decreases LEDS_MAX_X * LEDS_MAX_Y - led,
    {
        screen.push(color.g);
        screen.push(color.r);
        screen.push(color.b);
        led += 1;
    }
    assert(screen@ =~= filled_screen(color));
    screen
}

/// Draws the animation that announces `mode`, with the mushroom starting from
/// column `switch_element_pos`. The result holds the frames in the order in
/// which they are shown, the screen that follows them, and the column where the
/// mushroom has come to rest.
pub fn display_switch_animation(mode: &EqTunerModeEnum, switch_element_pos: i32) -> (r: SwitchAnimation)
    requires
        i32::MIN + SWITCH_ANIMATION_FRAMES <= switch_element_pos <= i32::MAX
            - SWITCH_ANIMATION_FRAMES,
    ensures
        r.frames@.len() == SWITCH_ANIMATION_FRAMES,
        forall|k: int|
            0 <= k < SWITCH_ANIMATION_FRAMES ==> (#[trigger] r.frames@[k])@ == animation_frame(
                *mode,
                switch_element_pos as int,
                k,
            ),
        r.closing_screen@ == closing_screen(*mode),
        r.switch_element_pos == mushroom_column(
            *mode,
            switch_element_pos as int,
            SWITCH_ANIMATION_FRAMES - 1,
        ),
{
    let fill_color = match mode {
        EqTunerModeEnum::Equalizer => RGB { r: 30, g: 1, b: 1 },
        EqTunerModeEnum::Tuner => RGB { r: 1, g: 1, b: 5 },
    };
    let one_up_graph = vecvec_one_up();
    let label_graph = match mode {
        EqTunerModeEnum::Equalizer => convert_vecvecbool_to_xy_rgb_vec(
            vecvecbool_eq(),
            RGB { r: 0, g: 70, b: 50 },
        ),
        EqTunerModeEnum::Tuner => convert_vecvecbool_to_xy_rgb_vec(
            vecvecbool_tuner(),
            RGB { r: 0, g: 70, b: 50 },
        ),
    };
    let mut frames: Vec<Vec<u8>> = Vec::new();
    let mut pos: i32 = switch_element_pos;
    let mut k: usize = 0;
    while k < SWITCH_ANIMATION_FRAMES
        invariant
            0 <= k <= SWITCH_ANIMATION_FRAMES,
            i32::MIN + SWITCH_ANIMATION_FRAMES <= switch_element_pos <= i32::MAX
                - SWITCH_ANIMATION_FRAMES,
            fill_color == mode_colour(*mode),
            cells(one_up_graph@) == one_up_graphic(),
            cells(label_graph@) == mode_label(*mode),
            pos == mushroom_column(*mode, switch_element_pos as int, k as int - 1),
            frames@.len() == k,
            forall|j: int|
                0 <= j < k ==> (#[trigger] frames@[j])@ == animation_frame(
                    *mode,
                    switch_element_pos as int,
                    j,
                ),
        decreases SWITCH_ANIMATION_FRAMES - k,
    {
        match mode {
            EqTunerModeEnum::Equalizer => {
                pos = pos - 1;
            },
            EqTunerModeEnum::Tuner => {
                pos = pos + 1;
            },
        }
        let mut frame = fill_screen(fill_color);
        paint_element(&mut frame, &one_up_graph, pos, 2);
        paint_element(&mut frame, &label_graph, 1, 23);
        frames.push(frame);
        k += 1;
    }
    let line_graph = line(LEDS_MAX_X, RGB { r: 255, g: 216, b: 0 });
    let dot_graph = dot(RGB { r: 40, g: 0, b: 0 });
    let mut screen = fill_screen(fill_color);
    paint_element(&mut screen, &line_graph, 0, 16);
    paint_element(&mut screen, &dot_graph, 2, 20);
    paint_element(&mut screen, &dot_graph, 4, 20);
    paint_element(&mut screen, &dot_graph, 6, 20);
    SwitchAnimation { frames, closing_screen: screen, switch_element_pos: pos }
}

} // verus!
