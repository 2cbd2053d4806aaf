//! Painting graphics on a serpentine LED matrix of any size.
//!
//! The LEDs of the matrix form one strip that runs row by row, back and forth:
//! even rows run from left to right, odd rows from right to left. A graphic is
//! a list of rows, the top row first, of cells that hold a colour or are
//! transparent. It is placed with its bottom left cell at an offset that may
//! lie outside the matrix; what does not fall on the matrix is clipped.

use vstd::prelude::*;
use vstd::arithmetic::div_mod::lemma_fundamental_div_mod;
use vstd::arithmetic::div_mod::lemma_fundamental_div_mod_converse;
use vstd::arithmetic::div_mod::lemma_mod_bound;

verus! {

/// A colour.
#[derive(Clone, Copy, PartialEq, Eq, Structural, Debug)]
pub struct RGB {
    pub r: u8,
    pub g: u8,
    pub b: u8,
}

/// The cells of a graphic, row by row, the top row first.
pub open spec fn cells(graphic: Seq<Vec<Option<RGB>>>) -> Seq<Seq<Option<RGB>>> {
    Seq::new(graphic.len(), |i: int| graphic[i]@)
}

/// Number of cells in a row of a graphic, taken from its top row.
pub open spec fn graphic_width(graphic: Seq<Seq<Option<RGB>>>) -> int {
    if graphic.len() == 0 {
        0
    } else {
        graphic[0].len() as int
    }
}

/// What a graphic placed at an offset puts on position (`x`, `y`) of the
/// matrix: the colour of the cell that comes to lie there, or nothing where
/// the graphic is transparent or does not reach. Rows of the graphic count
/// upwards from its bottom row, which lies on row `y_offset`.
pub open spec fn graphic_at(
    graphic: Seq<Seq<Option<RGB>>>,
    x_offset: int,
    y_offset: int,
    x: int,
    y: int,
) -> Option<RGB> {
    let col = x - x_offset;
    let up = y - y_offset;
    if 0 <= up < graphic.len() && 0 <= col < graphic_width(graphic) && col < graphic[graphic.len()
        - 1 - up].len() {
        graphic[graphic.len() - 1 - up][col]
    } else {
        None
    }
}

/// Whether the cell in column `col` of the row `up` rows above the bottom has
/// been painted once `rows_done` rows are done and `cols_done` cells of the
/// next.
pub open spec fn cell_done(up: int, col: int, rows_done: int, cols_done: int) -> bool {
    up < rows_done || (up == rows_done && col < cols_done)
}

/// Position along the strip of the LED in column `x` of row `y`.
pub open spec fn led_index(x: int, y: int, max_x: int) -> int {
    y * max_x + (if y % 2 == 1 {
        max_x - 1 - x
    } else {
        x
    })
}

/// The row of the LED at position `p` of the strip.
pub open spec fn led_row(p: int, max_x: int) -> int {
    p / max_x
}

/// The column of the LED at position `p` of the strip.
pub open spec fn led_column(p: int, max_x: int) -> int {
    if (p / max_x) % 2 == 1 {
        max_x - 1 - p % max_x
    } else {
        p % max_x
    }
}

/// What a graphic puts on the LED at position `p` of the strip of a matrix of
/// `max_x` by `max_y` LEDs, as far as the painting has come.
pub open spec fn led_colour_upto(
    graphic: Seq<Seq<Option<RGB>>>,
    x_offset: int,
    y_offset: int,
    max_x: int,
    max_y: int,
    p: int,
    rows_done: int,
    cols_done: int,
) -> Option<RGB> {
    if 0 <= p < max_x * max_y && cell_done(
        led_row(p, max_x) - y_offset,
        led_column(p, max_x) - x_offset,
        rows_done,
        cols_done,
    ) {
        graphic_at(graphic, x_offset, y_offset, led_column(p, max_x), led_row(p, max_x))
    } else {
        None
    }
}

/// What a graphic puts on the LED at position `p` of the strip of a matrix of
/// `max_x` by `max_y` LEDs.
pub open spec fn led_colour(
    graphic: Seq<Seq<Option<RGB>>>,
    x_offset: int,
    y_offset: int,
    max_x: int,
    max_y: int,
    p: int,
) -> Option<RGB> {
    if 0 <= p < max_x * max_y {
        graphic_at(graphic, x_offset, y_offset, led_column(p, max_x), led_row(p, max_x))
    } else {
        None
    }
}

/// A canvas of colours, one per LED, after a graphic has been painted on it:
/// every LED that the graphic puts a colour on has that colour, every other
/// LED the colour it had.
pub open spec fn painted_rgb(
    canvas: Seq<RGB>,
    graphic: Seq<Seq<Option<RGB>>>,
    x_offset: int,
    y_offset: int,
    max_x: int,
    max_y: int,
) -> Seq<RGB> {
    Seq::new(
        canvas.len(),
        |p: int|
            match led_colour(graphic, x_offset, y_offset, max_x, max_y, p) {
                Some(rgb) => rgb,
                None => canvas[p],
            },
    )
}

/// A canvas of colours as far as the painting of a graphic has come.
pub open spec fn painted_rgb_upto(
    canvas: Seq<RGB>,
    graphic: Seq<Seq<Option<RGB>>>,
    x_offset: int,
    y_offset: int,
    max_x: int,
    max_y: int,
    rows_done: int,
    cols_done: int,
) -> Seq<RGB> {
    Seq::new(
        canvas.len(),
        |p: int|
            match led_colour_upto(
                graphic,
                x_offset,
                y_offset,
                max_x,
                max_y,
                p,
                rows_done,
                cols_done,
            ) {
                Some(rgb) => rgb,
                None => canvas[p],
            },
    )
}

/// One of the three bytes that a colour takes on a byte canvas: green first,
/// then red, then blue.
pub open spec fn channel(rgb: RGB, c: int) -> u8 {
    if c == 0 {
        rgb.g
    } else if c == 1 {
        rgb.r
    } else {
        rgb.b
    }
}

/// A canvas of bytes, three per LED, after a graphic has been painted on it.
pub open spec fn painted(
    canvas: Seq<u8>,
    graphic: Seq<Seq<Option<RGB>>>,
    x_offset: int,
    y_offset: int,
    max_x: int,
    max_y: int,
) -> Seq<u8> {
    Seq::new(
        canvas.len(),
        |b: int|
            match led_colour(graphic, x_offset, y_offset, max_x, max_y, b / 3) {
                Some(rgb) => channel(rgb, b % 3),
                None => canvas[b],
            },
    )
}

/// A canvas of bytes as far as the painting of a graphic has come.
pub open spec fn painted_upto(
    canvas: Seq<u8>,
    graphic: Seq<Seq<Option<RGB>>>,
    x_offset: int,
    y_offset: int,
    max_x: int,
    max_y: int,
    rows_done: int,
    cols_done: int,
) -> Seq<u8> {
    Seq::new(
        canvas.len(),
        |b: int|
            match led_colour_upto(
                graphic,
                x_offset,
                y_offset,
                max_x,
                max_y,
                b / 3,
                rows_done,
                cols_done,
            ) {
                Some(rgb) => channel(rgb, b % 3),
                None => canvas[b],
            },
    )
}

/// Every position of the strip belongs to one LED of the matrix, and the LED
/// leads back to the position.
pub proof fn lemma_led_of_position(p: int, max_x: int, max_y: int)
    requires
        0 <= max_x,
        0 <= max_y,
        0 <= p < max_x * max_y,
    ensures
        max_x > 0,
        0 <= led_row(p, max_x) < max_y,
        0 <= led_column(p, max_x) < max_x,
        led_index(led_column(p, max_x), led_row(p, max_x), max_x) == p,
{
    assert(max_x > 0 && max_y > 0) by (nonlinear_arith)
        requires
            0 <= max_x,
            0 <= max_y,
            0 <= p < max_x * max_y,
    ;
    lemma_fundamental_div_mod(p, max_x);
    lemma_mod_bound(p, max_x);
    let q = p / max_x;
    let r = p % max_x;
    assert(max_x * q == q * max_x) by (nonlinear_arith);
    assert(0 <= q < max_y) by (nonlinear_arith)
        requires
            p == q * max_x + r,
            0 <= r < max_x,
            0 <= p < max_x * max_y,
            max_x > 0,
    ;
}

/// Every LED of the matrix has one position on the strip, and the position
/// leads back to the LED.
pub proof fn lemma_position_of_led(x: int, y: int, max_x: int, max_y: int)
    requires
        0 <= x < max_x,
        0 <= y < max_y,
    ensures
        0 <= led_index(x, y, max_x) < max_x * max_y,
        led_row(led_index(x, y, max_x), max_x) == y,
        led_column(led_index(x, y, max_x), max_x) == x,
{
    let along = if y % 2 == 1 {
        max_x - 1 - x
    } else {
        x
    };
    let p = led_index(x, y, max_x);
    lemma_fundamental_div_mod_converse(p, max_x, y, along);
    assert(0 <= y * max_x + along < max_x * max_y) by (nonlinear_arith)
        requires
            0 <= along < max_x,
            0 <= y < max_y,
    ;
}

/// Computes the position along the strip of the LED that the cell in column
/// `col` of the row `up` rows above the bottom of a graphic comes to lie on, if
/// it comes to lie on the matrix at all.
pub fn target_led(x_offset: i32, y_offset: i32, col: usize, up: usize, max_x: usize, max_y: usize) -> (r:
    Option<usize>)
    requires
        max_x * max_y <= usize::MAX,
    ensures
        r is Some <==> 0 <= x_offset + col < max_x && 0 <= y_offset + up < max_y,
        r is Some ==> r->0 == led_index(x_offset + col, y_offset + up, max_x as int) && r->0 < max_x
            * max_y,
{
    let x: i128 = x_offset as i128 + col as i128;
    let y: i128 = y_offset as i128 + up as i128;
    if x < 0 || x >= max_x as i128 || y < 0 || y >= max_y as i128 {
        return None;
    }
    proof {
        lemma_position_of_led(x as int, y as int, max_x as int, max_y as int);
        assert(0 <= y * max_x <= max_x * max_y) by (nonlinear_arith)
            requires
                0 <= y < max_y,
                0 <= max_x,
        ;
    }
    let along: i128 = if y % 2 == 1 {
        max_x as i128 - 1 - x
    } else {
        x
    };
    let p: i128 = y * (max_x as i128) + along;
    Some(p as usize)
}

/// Paints a graphic on a canvas of colours, one per LED of a matrix of `max_x`
/// by `max_y` LEDs, with the bottom left cell of the graphic at
/// (`x_offset`, `y_offset`). Transparent cells and cells that fall outside the
/// matrix leave the canvas as it is.
pub fn paint_element_rgb(
    pixelcolors: &mut Vec<RGB>,
    graphic: &Vec<Vec<Option<RGB>>>,
    x_offset: i32,
    y_offset: i32,
    max_x: usize,
    max_y: usize,
)
    requires
        old(pixelcolors)@.len() >= max_x * max_y,
    ensures
        final(pixelcolors)@ == painted_rgb(
            old(pixelcolors)@,
            cells(graphic@),
            x_offset as int,
            y_offset as int,
            max_x as int,
            max_y as int,
        ),
{
    let ghost before = pixelcolors@;
    let ghost xo = x_offset as int;
    let ghost yo = y_offset as int;
    let ghost mx = max_x as int;
    let ghost my = max_y as int;
    let height: usize = graphic.len();
    let width: usize = if height == 0 {
        0
    } else {
        graphic[0].len()
    };
    assert(pixelcolors@ =~= painted_rgb_upto(before, cells(graphic@), xo, yo, mx, my, 0, 0));
    let mut i: usize = 0;
    while i < height
        invariant
            0 <= i <= height,
            height == graphic@.len(),
            width == graphic_width(cells(graphic@)),
            before.len() >= mx * my,
            mx == max_x,
            my == max_y,
            xo == x_offset,
            yo == y_offset,
            pixelcolors@ == painted_rgb_upto(before, cells(graphic@), xo, yo, mx, my, i as int, 0),
        decreases height - i,
    {
        let row = &graphic[height - 1 - i];
        let mut col: usize = 0;
        while col < width
            invariant
                0 <= col <= width,
                0 <= i < height,
                height == graphic@.len(),
                width == graphic_width(cells(graphic@)),
                *row == graphic@[height - 1 - i],
                before.len() >= mx * my,
                mx == max_x,
                my == max_y,
                xo == x_offset,
                yo == y_offset,
                pixelcolors@ == painted_rgb_upto(
                    before,
                    cells(graphic@),
                    xo,
                    yo,
                    mx,
                    my,
                    i as int,
                    col as int,
                ),
            decreases width - col,
        {
            let mut cell: Option<RGB> = None;
            if col < row.len() {
                cell = row[col];
            }
            assert(cell == graphic_at(cells(graphic@), xo, yo, xo + col, yo + i));
            assert(max_x * max_y <= usize::MAX) by {
                assert(pixelcolors@.len() == before.len());
                assert(pixelcolors.len() <= usize::MAX);
            }
            let target = target_led(x_offset, y_offset, col, i, max_x, max_y);
            match (target, cell) {
                (Some(p), Some(rgb)) => {
                    pixelcolors.set(p, rgb);
                },
                _ => {},
            }
            proof {
                let later = painted_rgb_upto(
                    before,
                    cells(graphic@),
                    xo,
                    yo,
                    mx,
                    my,
                    i as int,
                    col as int + 1,
                );
                assert forall|q: int| 0 <= q < before.len() implies pixelcolors@[q] == later[q] by {
                    lemma_painting_step(
                        cells(graphic@),
                        xo,
                        yo,
                        mx,
                        my,
                        i as int,
                        col as int,
                        q,
                    );
                }
                assert(pixelcolors@ =~= later);
            }
            col += 1;
        }
        proof {
            let next = painted_rgb_upto(before, cells(graphic@), xo, yo, mx, my, i as int + 1, 0);
            assert forall|q: int| 0 <= q < before.len() implies pixelcolors@[q] == next[q] by {
                lemma_row_done(cells(graphic@), xo, yo, mx, my, i as int, q);
            }
            assert(pixelcolors@ =~= next);
        }
        i += 1;
    }
    assert(pixelcolors@ =~= painted_rgb(before, cells(graphic@), xo, yo, mx, my));
}

/// Painting one more cell changes what the graphic puts on the LED that the
/// cell lies on, and on no other.
pub proof fn lemma_painting_step(
    graphic: Seq<Seq<Option<RGB>>>,
    x_offset: int,
    y_offset: int,
    max_x: int,
    max_y: int,
    up: int,
    col: int,
    q: int,
)
    requires
        0 <= max_x,
        0 <= max_y,
    ensures
        led_colour_upto(graphic, x_offset, y_offset, max_x, max_y, q, up, col + 1) == (if 0
            <= x_offset + col < max_x && 0 <= y_offset + up < max_y && q == led_index(
            x_offset + col,
            y_offset + up,
            max_x,
        ) {
            graphic_at(graphic, x_offset, y_offset, x_offset + col, y_offset + up)
        } else {
            led_colour_upto(graphic, x_offset, y_offset, max_x, max_y, q, up, col)
        }),
{
    let x = x_offset + col;
    let y = y_offset + up;
    if 0 <= q < max_x * max_y {
        lemma_led_of_position(q, max_x, max_y);
        if 0 <= x < max_x && 0 <= y < max_y {
            lemma_position_of_led(x, y, max_x, max_y);
        }
    } else if 0 <= x < max_x && 0 <= y < max_y {
        lemma_position_of_led(x, y, max_x, max_y);
    }
}

/// Once the cells of a row that the graphic has are painted, the row is done.
pub proof fn lemma_row_done(
    graphic: Seq<Seq<Option<RGB>>>,
    x_offset: int,
    y_offset: int,
    max_x: int,
    max_y: int,
    up: int,
    q: int,
)
    ensures
        led_colour_upto(graphic, x_offset, y_offset, max_x, max_y, q, up + 1, 0)
            == led_colour_upto(
            graphic,
            x_offset,
            y_offset,
            max_x,
            max_y,
            q,
            up,
            graphic_width(graphic),
        ),
{
}

/// Paints a graphic on a canvas of bytes, three per LED of a matrix of `max_x`
/// by `max_y` LEDs, in the order green, red, blue, with the bottom left cell of
/// the graphic at (`x_offset`, `y_offset`). Transparent cells and cells that
/// fall outside the matrix leave the canvas as it is.
pub fn paint_element(
    pixelcolors: &mut Vec<u8>,
    graphic: &Vec<Vec<Option<RGB>>>,
    x_offset: i32,
    y_offset: i32,
    max_x: usize,
    max_y: usize,
)
    requires
        old(pixelcolors)@.len() >= 3 * (max_x * max_y),
    ensures
        final(pixelcolors)@ == painted(
            old(pixelcolors)@,
            cells(graphic@),
            x_offset as int,
            y_offset as int,
            max_x as int,
            max_y as int,
        ),
{
    let ghost before = pixelcolors@;
    let ghost xo = x_offset as int;
    let ghost yo = y_offset as int;
    let ghost mx = max_x as int;
    let ghost my = max_y as int;
    let height: usize = graphic.len();
    let width: usize = if height == 0 {
        0
    } else {
        graphic[0].len()
    };
    assert(pixelcolors@ =~= painted_upto(before, cells(graphic@), xo, yo, mx, my, 0, 0));
    let mut i: usize = 0;
    while i < height
        invariant
            0 <= i <= height,
            height == graphic@.len(),
            width == graphic_width(cells(graphic@)),
            before.len() >= 3 * (mx * my),
            mx == max_x,
            my == max_y,
            xo == x_offset,
            yo == y_offset,
            pixelcolors@ == painted_upto(before, cells(graphic@), xo, yo, mx, my, i as int, 0),
        decreases height - i,
    {
        let row = &graphic[height - 1 - i];
        let mut col: usize = 0;
        while col < width
            invariant
                0 <= col <= width,
                0 <= i < height,
                height == graphic@.len(),
                width == graphic_width(cells(graphic@)),
                *row == graphic@[height - 1 - i],
                before.len() >= 3 * (mx * my),
                mx == max_x,
                my == max_y,
                xo == x_offset,
                yo == y_offset,
                pixelcolors@ == painted_upto(
                    before,
                    cells(graphic@),
                    xo,
                    yo,
                    mx,
                    my,
                    i as int,
                    col as int,
                ),
            decreases width - col,
        {
            let mut cell: Option<RGB> = None;
            if col < row.len() {
                cell = row[col];
            }
            assert(cell == graphic_at(cells(graphic@), xo, yo, xo + col, yo + i));
            assert(max_x * max_y <= usize::MAX) by {
                assert(pixelcolors@.len() == before.len());
                assert(pixelcolors.len() <= usize::MAX);
            }
            let target = target_led(x_offset, y_offset, col, i, max_x, max_y);
            match (target, cell) {
                (Some(p), Some(rgb)) => {
                    assert(3 * p + 2 < pixelcolors.len() <= usize::MAX) by {
                        assert(pixelcolors@.len() == before.len());
                        assert(p < mx * my);
                    }
                    let index_in_color_vec: usize = p * 3;
                    pixelcolors.set(index_in_color_vec, rgb.g);
                    pixelcolors.set(index_in_color_vec + 1, rgb.r);
                    pixelcolors.set(index_in_color_vec + 2, rgb.b);
                },
                _ => {},
            }
            proof {
                let later = painted_upto(
                    before,
                    cells(graphic@),
                    xo,
                    yo,
                    mx,
                    my,
                    i as int,
                    col as int + 1,
                );
                assert forall|b: int| 0 <= b < before.len() implies pixelcolors@[b] == later[b] by {
                    lemma_painting_step(
                        cells(graphic@),
                        xo,
                        yo,
                        mx,
                        my,
                        i as int,
                        col as int,
                        b / 3,
                    );
                }
                assert(pixelcolors@ =~= later);
            }
            col += 1;
        }
        proof {
            let next = painted_upto(before, cells(graphic@), xo, yo, mx, my, i as int + 1, 0);
            assert forall|b: int| 0 <= b < before.len() implies pixelcolors@[b] == next[b] by {
                lemma_row_done(cells(graphic@), xo, yo, mx, my, i as int, b / 3);
            }
            assert(pixelcolors@ =~= next);
        }
        i += 1;
    }
    assert(pixelcolors@ =~= painted(before, cells(graphic@), xo, yo, mx, my));
}

/// A block of three by four cells, all of the same value.
pub fn c() -> (r: Vec<Vec<Option<u8>>>)
    ensures
        r@.len() == 4,
        forall|i: int| 0 <= i < 4 ==> (#[trigger] r@[i])@ == seq![Some(1u8), Some(1u8), Some(1u8)],
{
    let r = vec![
        vec![Some(1u8), Some(1u8), Some(1u8)],
        vec![Some(1u8), Some(1u8), Some(1u8)],
        vec![Some(1u8), Some(1u8), Some(1u8)],
        vec![Some(1u8), Some(1u8), Some(1u8)],
    ];
    assert(r@[0]@ =~= seq![Some(1u8), Some(1u8), Some(1u8)]);
    assert(r@[1]@ =~= seq![Some(1u8), Some(1u8), Some(1u8)]);
    assert(r@[2]@ =~= seq![Some(1u8), Some(1u8), Some(1u8)]);
    assert(r@[3]@ =~= seq![Some(1u8), Some(1u8), Some(1u8)]);
    r
}

/// The pixel that starts at byte `at` of a flat picture: transparent if it has
/// the colour that stands for transparency, else its colour.
pub open spec fn flat_pixel(src: Seq<u8>, at: int, alpha: Option<RGB>) -> Option<RGB> {
    let rgb = RGB { r: src[at], g: src[at + 1], b: src[at + 2] };
    if alpha == Some(rgb) {
        None
    } else {
        Some(rgb)
    }
}

/// The graphic that a flat picture of `image_height` rows of `row_bytes` bytes
/// each holds: row for row, three bytes to a pixel, what is left of a row after
/// its last whole pixel dropped.
pub open spec fn flat_graphic(src: Seq<u8>, row_bytes: int, image_height: int, alpha: Option<RGB>) -> Seq<
    Seq<Option<RGB>>,
> {
    Seq::new(
        image_height as nat,
        |i: int|
            Seq::new((row_bytes / 3) as nat, |k: int| flat_pixel(src, i * row_bytes + 3 * k, alpha)),
    )
}

/// Turns a flat picture of `image_height` rows of `image_width` bytes each, three
/// bytes to a pixel in the order red, green, blue, into a graphic. Pixels of
/// the colour `alpha` become transparent.
pub fn convert_flatvec_to_xyvec(src: Vec<u8>, image_width: usize, image_height: usize, alpha: Option<RGB>) -> (r:
    Vec<Vec<Option<RGB>>>)
    requires
        src@.len() >= image_width * image_height,
    ensures
        cells(r@) == flat_graphic(src@, image_width as int, image_height as int, alpha),
{
    let pixels_per_row: usize = image_width / 3;
    let mut result: Vec<Vec<Option<RGB>>> = Vec::new();
    let mut i: usize = 0;
    while i < image_height
        invariant
            0 <= i <= image_height,
            pixels_per_row == image_width / 3,
            src@.len() >= image_width * image_height,
            result@.len() == i,
            forall|a: int|
                0 <= a < i ==> (#[trigger] result@[a])@ == flat_graphic(
                    src@,
                    image_width as int,
                    image_height as int,
                    alpha,
                )[a],
        decreases image_height - i,
    {
        let mut row_tuples: Vec<Option<RGB>> = Vec::new();
        proof {
            assert(0 <= i * image_width && i * image_width + image_width <= image_width
                * image_height) by (nonlinear_arith)
                requires
                    0 <= i < image_height,
                    0 <= image_width,
            ;
            assert(src.len() <= usize::MAX);
        }
        let row_start: usize = i * image_width;
        let mut k: usize = 0;
        while k < pixels_per_row
            invariant
                0 <= k <= pixels_per_row,
                pixels_per_row == image_width / 3,
                row_start == i * image_width,
                row_start + image_width <= src@.len() <= usize::MAX,
                row_tuples@.len() == k,
                forall|j: int|
                    0 <= j < k ==> #[trigger] row_tuples@[j] == flat_pixel(
                        src@,
                        row_start + 3 * j,
                        alpha,
                    ),
            decreases pixels_per_row - k,
        {
            assert(3 * k + 3 <= image_width);
            let at: usize = row_start + 3 * k;
            let rgb = RGB { r: src[at], g: src[at + 1], b: src[at + 2] };
            let transparent: bool = match alpha {
                Some(a) => rgb.r == a.r && rgb.g == a.g && rgb.b == a.b,
                None => false,
            };
            if transparent {
                row_tuples.push(None);
            } else {
                row_tuples.push(Some(rgb));
            }
            k += 1;
        }
        assert(row_tuples@ =~= flat_graphic(
            src@,
            image_width as int,
            image_height as int,
            alpha,
        )[i as int]);
        result.push(row_tuples);
        i += 1;
    }
    assert(cells(result@) =~= flat_graphic(src@, image_width as int, image_height as int, alpha));
    result
}

/// A canvas of `count` LEDs of one colour.
pub open spec fn blank_canvas(count: int, color: RGB) -> Seq<RGB> {
    Seq::new(count as nat, |p: int| color)
}

/// The bytes that a canvas of colours is sent to the matrix as: three per LED
/// in the order green, red, blue.
pub open spec fn flattened(canvas: Seq<RGB>) -> Seq<u8> {
    Seq::new(3 * canvas.len(), |b: int| channel(canvas[b / 3], b % 3))
}

/// Lays out a canvas of colours as the bytes that are sent to the matrix.
pub fn flatten(color_vec: &Vec<RGB>) -> (r: Vec<u8>)
    ensures
        r@ == flattened(color_vec@),
{
    let mut bytes: Vec<u8> = Vec::new();
    let mut p: usize = 0;
    while p < color_vec.len()
        invariant
            0 <= p <= color_vec@.len(),
            bytes@.len() == 3 * p,
            forall|b: int| 0 <= b < 3 * p ==> #[trigger] bytes@[b] == channel(color_vec@[b / 3], b % 3),
        decreases color_vec@.len() - p,
    {
        let rgb = color_vec[p];
        bytes.push(rgb.g);
        bytes.push(rgb.r);
        bytes.push(rgb.b);
        p += 1;
    }
    assert(bytes@ =~= flattened(color_vec@));
    bytes
}

/// A graphic whose rows all lie outside the matrix leaves a canvas as it is.
pub proof fn lemma_offscreen_rows(
    canvas: Seq<RGB>,
    graphic: Seq<Seq<Option<RGB>>>,
    x_offset: int,
    y_offset: int,
    max_x: int,
    max_y: int,
)
    requires
        0 <= max_x,
        0 <= max_y,
        y_offset >= max_y || y_offset + graphic.len() <= 0,
    ensures
        painted_rgb(canvas, graphic, x_offset, y_offset, max_x, max_y) == canvas,
{
    assert forall|p: int| 0 <= p < canvas.len() implies led_colour(
        graphic,
        x_offset,
        y_offset,
        max_x,
        max_y,
        p,
    ) is None by {
        if 0 <= p < max_x * max_y {
            lemma_led_of_position(p, max_x, max_y);
        }
    }
    assert(painted_rgb(canvas, graphic, x_offset, y_offset, max_x, max_y) =~= canvas);
}

} // verus!
