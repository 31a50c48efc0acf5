use tile_world::assets::{bit_scan_forward, BitmapAsset};
use tile_world::color::Color;
use tile_world::memory::Memory;
use tile_world::meters::{isqrt, Meters};
use tile_world::rng::{Lehmer64, Rng};
use tile_world::sim::{Button, LoopState};
use tile_world::tilemap::TileType;
use tile_world::vector::Vector2;
use tile_world::Error;

#[test]
fn meters_arithmetic_is_exact() {
    let a = Meters::new(3 * 65536);
    let b = Meters::new(2 * 65536);
    assert_eq!(a.add(b).raw(), 5 * 65536);
    assert_eq!(a.sub(b).raw(), 65536);
    assert_eq!(a.neg().raw(), -3 * 65536);
    assert_eq!(a.mul(b).raw(), 6 * 65536);
}

#[test]
fn meters_multiplication_rounds_toward_minus_infinity() {
    // 3 * 65536 / 65536 with remainder: floor division
    assert_eq!(Meters::new(3).mul(Meters::new(1)).raw(), 0);
    assert_eq!(Meters::new(-1).mul(Meters::new(1)).raw(), -1);
    assert_eq!(Meters::new(-65536).mul(Meters::new(65536)).raw(), -65536);
}

#[test]
fn meters_round_step_ties_away_from_zero() {
    assert_eq!(Meters::new(32768).round_step(), 1);
    assert_eq!(Meters::new(32767).round_step(), 0);
    assert_eq!(Meters::new(-32767).round_step(), 0);
    assert_eq!(Meters::new(-32768).round_step(), -1);
    assert_eq!(Meters::new(0).round_step(), 0);
}

#[test]
fn integer_square_root_brackets_the_input() {
    assert_eq!(isqrt(0), 0);
    assert_eq!(isqrt(1), 1);
    assert_eq!(isqrt(2), 1);
    assert_eq!(isqrt(3), 1);
    assert_eq!(isqrt(4), 2);
    assert_eq!(isqrt(65536), 256);
    assert_eq!(isqrt(4294967296), 65536);
    assert_eq!(isqrt(4294967295), 65535);
    assert_eq!(isqrt(u64::MAX), 4294967295);
}

#[test]
fn color_packs_to_argb() {
    let c = Color::rgba(1, 2, 3, 4);
    assert_eq!(c.as_u32(), 0x0401_0203);
    let c = Color::rgb(255, 255, 0);
    assert_eq!(c.as_u32(), 0x00ff_ff00);
}

#[test]
fn color_unpacks_from_argb() {
    let c = Color::from_u32(0x0401_0203);
    assert_eq!(c.alpha, 4);
    assert_eq!(c.red, 1);
    assert_eq!(c.green, 2);
    assert_eq!(c.blue, 3);
}

#[test]
fn alpha_blend_interpolates_channels() {
    // full alpha keeps the foreground
    let mut c = Color::rgba(200, 100, 50, 255);
    c.linear_alpha_blend(Color::rgb(10, 20, 30));
    assert_eq!((c.red, c.green, c.blue, c.alpha), (200, 100, 50, 255));

    // zero alpha keeps the background
    let mut c = Color::rgba(200, 100, 50, 0);
    c.linear_alpha_blend(Color::rgb(10, 20, 30));
    assert_eq!((c.red, c.green, c.blue), (10, 20, 30));

    // mid alpha: (128*200 + 127*10) / 255 = 105
    let mut c = Color::rgba(200, 100, 50, 128);
    c.linear_alpha_blend(Color::rgb(10, 20, 30));
    assert_eq!(c.red, ((128u32 * 200 + 127 * 10) / 255) as u8);
}

#[test]
fn tile_kinds_have_their_colors() {
    assert_eq!(TileType::Wall.color().as_u32(), 0x00ff_ff00);
    assert_eq!(TileType::Empty.color().as_u32(), 0x007f_7f7f);
    assert_eq!(TileType::Ladder.color().as_u32(), 0x0000_00ff);
}

#[test]
fn arena_bumps_aligned_offsets() {
    let mut m = Memory::new(1024);
    assert_eq!(m.allocate(144), Ok(0));
    assert_eq!(m.allocate(144), Ok(144));
    assert_eq!(m.allocate(1), Ok(288));
    // the next offset is 16-byte aligned
    assert_eq!(m.allocate(1), Ok(304));
}

#[test]
fn arena_exhaustion_is_an_error() {
    let mut m = Memory::new(100);
    assert_eq!(m.allocate(200), Err(Error::OutOfMemory));
    assert_eq!(m.allocate(96), Ok(0));
    // 96 bytes used; 100 - 96 leaves no room for 8 more
    assert_eq!(m.allocate(8), Err(Error::OutOfMemory));
}

#[test]
fn bit_scan_finds_the_lowest_set_bit() {
    assert_eq!(bit_scan_forward(0), None);
    assert_eq!(bit_scan_forward(1), Some(0));
    assert_eq!(bit_scan_forward(0x0000_ff00), Some(8));
    assert_eq!(bit_scan_forward(0x00ff_0000), Some(16));
    assert_eq!(bit_scan_forward(0xff00_0000), Some(24));
    assert_eq!(bit_scan_forward(1u64 << 63), Some(63));
    assert_eq!(bit_scan_forward(0b1100), Some(2));
}

#[test]
fn bitmap_header_decodes_size_channels_and_pixels() {
    let mut file = vec![0u8; 0x46];
    // pixel data offset
    file[0x0a] = 0x46;
    // width 2, height 3
    file[0x12] = 2;
    file[0x16] = 3;
    // channel masks: red in byte 2, green in byte 1, blue in byte 0,
    // alpha in byte 3
    file[0x36 + 2] = 0xff;
    file[0x3a + 1] = 0xff;
    file[0x3e] = 0xff;
    file[0x42 + 3] = 0xff;
    // pixel bytes
    file.extend_from_slice(&[9, 8, 7, 6]);

    let asset = BitmapAsset::from_data(&file);
    assert_eq!(asset.width, 2);
    assert_eq!(asset.height, 3);
    assert_eq!(asset.red_index, 2);
    assert_eq!(asset.green_index, 1);
    assert_eq!(asset.blue_index, 0);
    assert_eq!(asset.alpha_index, 3);
    assert_eq!(asset.data, vec![9, 8, 7, 6]);
}

#[test]
fn rectangle_bounds_clamp_to_the_window() {
    // a 100x50-pixel rectangle at (-10, 530): clipped by the left and
    // bottom window edges
    let pos = Vector2::new(Meters::new(-10 * 65536), Meters::new(530 * 65536));
    let r = tile_world::draw::clamp_rectangle(
        pos,
        Meters::new(100 * 65536),
        Meters::new(50 * 65536),
        960,
        540,
    );
    assert_eq!(r, Ok((0, 530, 90, 540)));
}

#[test]
fn inverted_rectangle_is_rejected() {
    // a negative extent puts the corners out of order
    let pos = Vector2::new(Meters::new(100 * 65536), Meters::new(100 * 65536));
    let r = tile_world::draw::clamp_rectangle(
        pos,
        Meters::new(-50 * 65536),
        Meters::new(10 * 65536),
        960,
        540,
    );
    assert_eq!(r, Err(Error::InvalidRectangle));
}

#[test]
fn rng_is_deterministic_per_seed() {
    let mut a = Rng::new(42);
    let mut b = Rng::new(42);
    for _ in 0..10 {
        assert_eq!(a.next(), b.next());
    }
}

#[test]
fn rng_step_follows_the_rotate_multiply_rule() {
    let mut r = Rng { xstate: 1, ystate: 2 };
    let out = r.next();
    assert_eq!(out, 1);
    assert_eq!(r.xstate, 15_241_094_284_759_029_579u64.wrapping_mul(2));
    assert_eq!(r.ystate, 2u64.wrapping_sub(1).rotate_left(27));
}

#[test]
fn lehmer_step_multiplies_and_keeps_the_high_half() {
    let mut l = Lehmer64 { value: 1u128 << 64 };
    let out = l.next();
    let expected = (1u128 << 64).wrapping_mul(0xda94_2042_e4dd_58b5);
    assert_eq!(l.value, expected);
    assert_eq!(out, (expected >> 64) as u64);
}

#[test]
fn buttons_decode_from_indexes() {
    assert_eq!(Button::from_usize(0), Button::Up);
    assert_eq!(Button::from_usize(1), Button::Down);
    assert_eq!(Button::from_usize(2), Button::Left);
    assert_eq!(Button::from_usize(3), Button::Right);
    assert_eq!(Button::from_usize(4), Button::DecreaseSpeed);
    assert_eq!(Button::from_usize(5), Button::IncreaseSpeed);
}

#[test]
fn replay_inputs_rotate_through_the_recording() {
    let mut ls = LoopState {
        input_index: 0,
        buttons: vec![
            [true, false, false, false, false, false],
            [false, true, false, false, false, false],
        ],
    };
    assert!(ls.next_input()[0]);
    assert!(ls.next_input()[1]);
    // wraps back to the first entry
    assert!(ls.next_input()[0]);
}

#[test]
fn vectors_carry_components() {
    let v = Vector2::new(3u16, 4u16);
    assert_eq!(v.x, 3);
    assert_eq!(v.y, 4);
    let w = Vector2::into(&v);
    assert_eq!(w.x, 3u32);
    assert_eq!(w.y, 4u32);
}

#[test]
fn fixed_point_dot_product() {
    let v = Vector2::new(Meters::new(3 * 65536), Meters::new(4 * 65536));
    let w = Vector2::new(Meters::new(2 * 65536), Meters::new(-65536));
    assert_eq!(v.dot(w).raw(), 2 * 65536);
    assert_eq!(v.len_squared().raw(), 25 * 65536);
}
