//! Pixel data prepared for display.
use vstd::prelude::*;
use crate::canvas::lemma_cell_of_index;

verus! {

/// Gray level of the light checkerboard tiles.
pub const CHECKER_LIGHT: u8 = 0xe0;

/// Gray level of the dark checkerboard tiles.
pub const CHECKER_DARK: u8 = 0xb0;

/// Gray level of cell `(x, y)` of a checkerboard of `tile` by `tile` squares,
/// light where the tile's row and column add up to an even number.
pub open spec fn checker_level(x: int, y: int, tile: int) -> u8 {
    if (x / tile + y / tile) % 2 == 0 {
        CHECKER_LIGHT
    } else {
        CHECKER_DARK
    }
}

/// RGBA bytes of a `width` by `height` gray checkerboard with square tiles
/// of side `tile_size`, drawn behind transparent pixels.
pub fn generate_checkerboard(width: u32, height: u32, tile_size: u32) -> (r: Vec<u8>)
    requires
        tile_size > 0,
        4 * width * height <= usize::MAX,
    ensures
        r@.len() == 4 * width * height,
        forall|i: int|
            0 <= i < r@.len() ==> #[trigger] r@[i] == if i % 4 == 3 {
                255u8
            } else {
                checker_level((i / 4) % width as int, (i / 4) / width as int, tile_size as int)
            },
{
    assert(4 * width * height == 4 * (width * height)) by (nonlinear_arith);
    let n: usize = (width as usize) * (height as usize);
    let mut pixels: Vec<u8> = Vec::with_capacity(4 * n);
    let mut i: usize = 0;
    while i < n
        invariant
            i <= n,
            n == width * height,
            4 * n <= usize::MAX,
            tile_size > 0,
            pixels@.len() == 4 * i,
            forall|j: int|
                0 <= j < pixels@.len() ==> #[trigger] pixels@[j] == if j % 4 == 3 {
                    255u8
                } else {
                    checker_level((j / 4) % width as int, (j / 4) / width as int, tile_size as int)
                },
        decreases n - i,
    {
        proof {
            assert(width > 0) by (nonlinear_arith)
                requires
                    i < n,
                    n == width * height,
            ;
            lemma_cell_of_index(i as int, width as int, height as int);
        }
        let x = (i % (width as usize)) as u32;
        let y = (i / (width as usize)) as u32;
        let level = if ((x / tile_size) as u64 + (y / tile_size) as u64) % 2 == 0 {
            CHECKER_LIGHT
        } else {
            CHECKER_DARK
        };
        pixels.push(level);
        pixels.push(level);
        pixels.push(level);
        pixels.push(255);
        proof {
            let base = 4 * i as int;
            assert forall|j: int| 0 <= j < pixels@.len() implies #[trigger] pixels@[j] == if j % 4 == 3 {
                255u8
            } else {
                checker_level((j / 4) % width as int, (j / 4) / width as int, tile_size as int)
            } by {
                if j >= base {
                    vstd::arithmetic::div_mod::lemma_fundamental_div_mod_converse(j, 4, i as int, j - base);
                }
            }
        }
        i = i + 1;
    }
    pixels
}

/// Some whole RGBA pixel of `pixels` is not fully opaque.
pub fn has_transparency(pixels: &[u8]) -> (r: bool)
    ensures
        r == exists|k: int| 0 <= k < pixels@.len() / 4 && #[trigger] pixels@[4 * k + 3] < 255,
{
    let total = pixels.len();
    let n = total / 4;
    let mut k: usize = 0;
    while k < n
        invariant
            k <= n,
            total == pixels@.len(),
            n == pixels@.len() / 4,
            forall|j: int| 0 <= j < k ==> #[trigger] pixels@[4 * j + 3] == 255,
        decreases n - k,
    {
        proof {
            let len = pixels@.len() as int;
            vstd::arithmetic::div_mod::lemma_fundamental_div_mod(len, 4);
            vstd::arithmetic::div_mod::lemma_mod_pos_bound(len, 4);
            assert(4 * k + 3 < len) by (nonlinear_arith)
                requires
                    k < n,
                    n == len / 4,
                    len == 4 * (len / 4) + len % 4,
                    0 <= len % 4 < 4,
            ;
        }
        if pixels[4 * k + 3] < 255 {
            return true;
        }
        k = k + 1;
    }
    false
}

} // verus!
