//! The test pattern the kernel paints on the boot framebuffer: horizontal
//! stripes of 32 rows, black, red, green and blue in turn.

use vstd::prelude::*;

verus! {

/// Pixels per row (and the row pitch, in pixels).
pub const WIDTH: usize = 1024;

/// Rows of the screen.
pub const HEIGHT: usize = 768;

/// Where the framebuffer is mapped in the kernel's address space: the
/// physical memory mapping plus 2 GiB.
pub const FRAMEBUFFER_ADDRESS: u64 = 0xFFFF800080000000;

/// Rows per stripe.
pub const STRIPE_ROWS: usize = 32;

/// The colour (0xAARRGGBB) of a row: its stripe number modulo 4 picks black,
/// red, green or blue, all opaque.
pub open spec fn stripe_color_spec(row: int) -> u32 {
    let band = (row / STRIPE_ROWS as int) % 4;
    if band == 0 {
        0xFF000000u32
    } else if band == 1 {
        0xFFFF0000u32
    } else if band == 2 {
        0xFF00FF00u32
    } else {
        0xFF0000FFu32
    }
}

/// The colour of a row of the test pattern.
pub fn stripe_color(row: usize) -> (c: u32)
    ensures
        c == stripe_color_spec(row as int),
        (row / 32) % 4 == 0 ==> c == 0xFF000000u32,
        (row / 32) % 4 == 1 ==> c == 0xFFFF0000u32,
        (row / 32) % 4 == 2 ==> c == 0xFF00FF00u32,
        (row / 32) % 4 == 3 ==> c == 0xFF0000FFu32,
{
    assert(row >> 5usize == row / 32) by (bit_vector);
    match (row >> 5) % 4 {
        0 => 0xFF000000,
        1 => 0xFFFF0000,
        2 => 0xFF00FF00,
        _ => 0xFF0000FF,
    }
}

/// The index of a pixel in the framebuffer.
pub fn pixel_index(row: usize, col: usize) -> (i: usize)
    requires
        row < HEIGHT,
        col < WIDTH,
    ensures
        i == row * WIDTH + col,
        i < WIDTH * HEIGHT,
{
    row * 0x400 + col
}

/// Paints the test pattern: every pixel takes the colour of its row.
pub fn paint_test_pattern(fb: &mut [u32])
    requires
        old(fb)@.len() == WIDTH * HEIGHT,
    ensures
        final(fb)@.len() == WIDTH * HEIGHT,
        forall|k: int|
            0 <= k < WIDTH * HEIGHT ==> #[trigger] final(fb)@[k] == stripe_color_spec(k / WIDTH as int),
        forall|k: int|
            0 <= k < WIDTH * HEIGHT ==> #[trigger] final(fb)@[k] == (if (k / WIDTH as int / 32) % 4 == 0 {
                0xFF000000u32
            } else if (k / WIDTH as int / 32) % 4 == 1 {
                0xFFFF0000u32
            } else if (k / WIDTH as int / 32) % 4 == 2 {
                0xFF00FF00u32
            } else {
                0xFF0000FFu32
            }),
{
    let mut i: usize = 0;
    while i < HEIGHT
        invariant
            i <= HEIGHT,
            fb@.len() == WIDTH * HEIGHT,
            forall|k: int|
                0 <= k < i * WIDTH ==> #[trigger] fb@[k] == stripe_color_spec(k / WIDTH as int),
        decreases HEIGHT - i,
    {
        let color = stripe_color(i);
        let mut j: usize = 0;
        while j < WIDTH
            invariant
                i < HEIGHT,
                j <= WIDTH,
                fb@.len() == WIDTH * HEIGHT,
                color == stripe_color_spec(i as int),
                forall|k: int|
                    0 <= k < i * WIDTH + j ==> #[trigger] fb@[k] == stripe_color_spec(k / WIDTH as int),
            decreases WIDTH - j,
        {
            let idx = pixel_index(i, j);
            proof {
                vstd::arithmetic::div_mod::lemma_fundamental_div_mod_converse(
                    idx as int,
                    WIDTH as int,
                    i as int,
                    j as int,
                );
            }
            fb[idx] = color;
            j = j + 1;
        }
        i = i + 1;
    }
}

/// A row's colour depends only on its stripe: rows in the same 32-row
/// stripe get the same colour, and stripes 0, 1, 2, 3 (modulo 4) are black,
/// red, green and blue.
pub proof fn lemma_stripe_colors(row: int, other: int)
    requires
        row >= 0,
        other >= 0,
    ensures
        row / 32 == other / 32 ==> stripe_color_spec(row) == stripe_color_spec(other),
        (row / 32) % 4 == 0 ==> stripe_color_spec(row) == 0xFF000000u32,
        (row / 32) % 4 == 1 ==> stripe_color_spec(row) == 0xFFFF0000u32,
        (row / 32) % 4 == 2 ==> stripe_color_spec(row) == 0xFF00FF00u32,
        (row / 32) % 4 == 3 ==> stripe_color_spec(row) == 0xFF0000FFu32,
{
}

/// The pattern repeats every four stripes.
pub proof fn lemma_stripes_repeat(row: int)
    requires
        row >= 0,
    ensures
        stripe_color_spec(row + 4 * STRIPE_ROWS as int) == stripe_color_spec(row),
{
    let b = row / 32;
    vstd::arithmetic::div_mod::lemma_fundamental_div_mod(row, 32);
    vstd::arithmetic::div_mod::lemma_fundamental_div_mod_converse(row + 128, 32, b + 4, row % 32);
    vstd::arithmetic::div_mod::lemma_mod_add_multiples_vanish(b, 4);
}

/// Every colour of the pattern is opaque.
pub proof fn lemma_stripes_opaque(row: int)
    ensures
        stripe_color_spec(row) & 0xFF000000u32 == 0xFF000000u32,
{
    assert(0xFF000000u32 & 0xFF000000u32 == 0xFF000000u32) by (bit_vector);
    assert(0xFFFF0000u32 & 0xFF000000u32 == 0xFF000000u32) by (bit_vector);
    assert(0xFF00FF00u32 & 0xFF000000u32 == 0xFF000000u32) by (bit_vector);
    assert(0xFF0000FFu32 & 0xFF000000u32 == 0xFF000000u32) by (bit_vector);
}

} // verus!
