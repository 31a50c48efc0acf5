//! Bitmap asset headers.
//!
//! Reading an asset file is the platform layer's job; what belongs to the
//! core is decoding the fixed-layout header: where the pixel bytes start,
//! the image size, and which byte of a pixel holds which color channel
//! (given by each channel mask's lowest set bit).

use vstd::prelude::*;
use vstd::arithmetic::power2::{lemma2_to64, lemma_pow2_strictly_increases, lemma_pow2_unfold, pow2};

verus! {

/// The little-endian 32-bit value stored at `off` in `s`.
pub open spec fn le_u32_at(s: Seq<u8>, off: int) -> int {
    s[off] + 0x100 * s[off + 1] + 0x1_0000 * s[off + 2] + 0x100_0000 * s[off + 3]
}

/// The index of the lowest set bit: zero for an odd or zero value, one more
/// than its half's otherwise.
pub open spec fn lowest_set_bit(v: nat) -> nat
    decreases v,
{
    if v == 0 || v % 2 == 1 {
        0
    } else {
        1 + lowest_set_bit(v / 2)
    }
}

/// Read the little-endian 32-bit value stored at `off`.
fn read_le_u32(data: &Vec<u8>, off: usize) -> (r: u32)
    requires
        off + 4 <= data@.len(),
    ensures
        r == le_u32_at(data@, off as int),
{
    let _n = data.len();
    (data[off] as u32) + 0x100 * (data[off + 1] as u32) + 0x1_0000 * (data[off + 2] as u32)
        + 0x100_0000 * (data[off + 3] as u32)
}

/// The index of the lowest set bit of `val`, or nothing when `val` is zero.
pub fn bit_scan_forward(val: u64) -> (r: Option<u8>)
    ensures
        match r {
            None => val == 0,
            Some(i) => val != 0 && i == lowest_set_bit(val as nat) && i < 64,
        },
{
    if val == 0 {
        return None;
    }
    let mut v = val;
    let mut i: u8 = 0;
    proof {
        lemma2_to64();
        assert((val as nat) * pow2(0) == val as nat) by (nonlinear_arith)
            requires pow2(0) == 1;
    }
    while v % 2 == 0
        invariant
            v >= 1,
            i < 64,
            val as nat == (v as nat) * pow2(i as nat),
            lowest_set_bit(val as nat) == i + lowest_set_bit(v as nat),
        decreases v,
    {
        proof {
            assert(lowest_set_bit(v as nat) == 1 + lowest_set_bit((v / 2) as nat));
            lemma_pow2_unfold((i + 1) as nat);
            assert(val as nat == ((v / 2) as nat) * pow2((i + 1) as nat)) by (nonlinear_arith)
                requires
                    val as nat == (v as nat) * pow2(i as nat) && pow2((i + 1) as nat) == 2 * pow2(
                        i as nat,
                    ) && v as nat % 2 == 0;
            lemma2_to64();
            if i + 1 == 64 {
                assert((v / 2) as nat * pow2(64) >= pow2(64)) by (nonlinear_arith)
                    requires (v / 2) as nat >= 1;
            }
        }
        v = v / 2;
        i = i + 1;
    }
    Some(i)
}

/// A bitmap asset: image size, the byte index of each color channel in the
/// pixel stream, and the pixel bytes themselves.
#[derive(Clone, Debug, PartialEq, Eq)]
pub struct BitmapAsset {
    /// Width of the bitmap in pixels.
    pub width: u32,
    /// Height of the bitmap in pixels.
    pub height: u32,
    /// The byte index (0 to 3) of the red channel in a pixel.
    pub red_index: u8,
    /// The byte index (0 to 3) of the blue channel in a pixel.
    pub blue_index: u8,
    /// The byte index (0 to 3) of the green channel in a pixel.
    pub green_index: u8,
    /// The byte index (0 to 3) of the alpha channel in a pixel.
    pub alpha_index: u8,
    /// The pixel bytes, bottom row first.
    pub data: Vec<u8>,
}

impl BitmapAsset {
    /// Decode a bitmap file's fixed-layout header — pixel-data offset,
    /// image size, and one mask per color channel, each channel's byte
    /// index being its mask's lowest set bit divided by eight — and keep
    /// the pixel bytes the stated offset points at.
    pub fn from_data(data: &Vec<u8>) -> (r: BitmapAsset)
        requires
            data@.len() >= 0x46,
            le_u32_at(data@, 0x0a) <= data@.len(),
            le_u32_at(data@, 0x36) != 0,
            le_u32_at(data@, 0x3a) != 0,
            le_u32_at(data@, 0x3e) != 0,
            le_u32_at(data@, 0x42) != 0,
        ensures
            r.width == le_u32_at(data@, 0x12),
            r.height == le_u32_at(data@, 0x16),
            r.red_index == lowest_set_bit(le_u32_at(data@, 0x36) as nat) / 8,
            r.green_index == lowest_set_bit(le_u32_at(data@, 0x3a) as nat) / 8,
            r.blue_index == lowest_set_bit(le_u32_at(data@, 0x3e) as nat) / 8,
            r.alpha_index == lowest_set_bit(le_u32_at(data@, 0x42) as nat) / 8,
            r.data@ == data@.subrange(le_u32_at(data@, 0x0a), data@.len() as int),
    {
        let offset = read_le_u32(data, 0x0a) as usize;
        let width = read_le_u32(data, 0x12);
        let height = read_le_u32(data, 0x16);
        let r_mask = read_le_u32(data, 0x36);
        let g_mask = read_le_u32(data, 0x3a);
        let b_mask = read_le_u32(data, 0x3e);
        let a_mask = read_le_u32(data, 0x42);

        let red_index = scan_channel(r_mask);
        let green_index = scan_channel(g_mask);
        let blue_index = scan_channel(b_mask);
        let alpha_index = scan_channel(a_mask);

        let mut pixels: Vec<u8> = Vec::new();
        let mut j = offset;
        while j < data.len()
            invariant
                offset <= j <= data@.len(),
                pixels@ == data@.subrange(offset as int, j as int),
            decreases data@.len() - j,
        {
            pixels.push(data[j]);
            proof {
                assert(pixels@ =~= data@.subrange(offset as int, j + 1 as int));
            }
            j = j + 1;
        }
        BitmapAsset { width, height, red_index, blue_index, green_index, alpha_index, data: pixels }
    }
}

/// The byte index a nonzero channel mask names: its lowest set bit divided
/// by eight.
fn scan_channel(mask: u32) -> (r: u8)
    requires
        mask != 0,
    ensures
        r == lowest_set_bit(mask as nat) / 8,
{
    match bit_scan_forward(mask as u64) {
        Some(i) => i / 8,
        None => {
            proof {
                assert(false);
            }
            0
        },
    }
}

} // verus!
