//! Geometry for the rectangle fills the renderer performs.
//!
//! Filling pixels is the platform layer's job; what belongs to the core is
//! turning a continuous rectangle into the integer pixel bounds to fill,
//! clamped to the window, and rejecting a degenerate rectangle.

use vstd::prelude::*;
use crate::meters::Meters;
use crate::vector::Vector2;
use crate::Error;

verus! {

/// A fixed-point pixel coordinate truncated toward zero and clamped to
/// `[0, hi]`.
pub open spec fn trunc_clamp_spec(x: int, hi: int) -> int {
    if x <= 0 {
        0
    } else if x / 65536 >= hi {
        hi
    } else {
        x / 65536
    }
}

/// Truncate a fixed-point pixel coordinate toward zero and clamp it to
/// `[0, hi]`.
fn trunc_clamp(x: Meters, hi: u16) -> (r: u32)
    ensures
        r == trunc_clamp_spec(x@, hi as int),
{
    let raw = x.raw();
    if raw <= 0 {
        0
    } else {
        let q = (raw as u64) / 65536;
        if q >= hi as u64 {
            hi as u32
        } else {
            q as u32
        }
    }
}

/// The pixel bounds of a rectangle at fixed-point pixel position `pos` with
/// fixed-point pixel extent (`width`, `height`), clamped to a window of
/// `win_width` by `win_height` pixels: (left, top, right, bottom), the
/// right and bottom bounds exclusive. A rectangle whose clamped corners
/// are out of order is rejected, exactly when it is reported invalid.
pub fn clamp_rectangle(
    pos: Vector2<Meters>,
    width: Meters,
    height: Meters,
    win_width: u16,
    win_height: u16,
) -> (r: Result<(u32, u32, u32, u32), Error>)
    requires
        i64::MIN <= pos.x@ + width@ <= i64::MAX,
        i64::MIN <= pos.y@ + height@ <= i64::MAX,
    ensures
        ({
            let left = trunc_clamp_spec(pos.x@, win_width as int);
            let top = trunc_clamp_spec(pos.y@, win_height as int);
            let right = trunc_clamp_spec(pos.x@ + width@, win_width as int);
            let bottom = trunc_clamp_spec(pos.y@ + height@, win_height as int);
            if left > right || top > bottom {
                r == Err::<(u32, u32, u32, u32), Error>(Error::InvalidRectangle)
            } else {
                r == Ok::<(u32, u32, u32, u32), Error>((left as u32, top as u32, right as u32, bottom as u32))
            }
        }),
{
    let left = trunc_clamp(pos.x, win_width);
    let top = trunc_clamp(pos.y, win_height);
    let right = trunc_clamp(pos.x.add(width), win_width);
    let bottom = trunc_clamp(pos.y.add(height), win_height);
    if left > right || top > bottom {
        Err(Error::InvalidRectangle)
    } else {
        Ok((left, top, right, bottom))
    }
}

} // verus!
