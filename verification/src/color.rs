//! Terminal colors and dimming.
use vstd::prelude::*;

verus! {

/// A terminal color: black, gray, or an RGB triple.
#[derive(Clone, Copy, Debug, PartialEq, Eq, Structural)]
pub enum RatColor {
    Black,
    Gray,
    Rgb(u8, u8, u8),
}

/// A channel scaled by `tenths / 10`, rounded down and capped at 127.
pub open spec fn dim_channel_spec(c: u8, tenths: u8) -> u8 {
    let v = (c as int * tenths as int) / 10;
    if v > 127 {
        127
    } else {
        v as u8
    }
}

/// `color` with each RGB channel scaled by `tenths / 10`, rounded down and capped at 127;
/// any other color becomes gray.
pub open spec fn dim_spec(color: RatColor, tenths: u8) -> RatColor {
    match color {
        RatColor::Rgb(r, g, b) => RatColor::Rgb(
            dim_channel_spec(r, tenths),
            dim_channel_spec(g, tenths),
            dim_channel_spec(b, tenths),
        ),
        _ => RatColor::Gray,
    }
}

fn dim_channel(c: u8, tenths: u8) -> (r: u8)
    ensures
        r == dim_channel_spec(c, tenths),
{
    assert(c as int * tenths as int <= 255 * 255) by (nonlinear_arith)
        requires
            c <= 255,
            tenths <= 255,
    ;
    let v: u32 = (c as u32 * tenths as u32) / 10;
    if v > 127 {
        127
    } else {
        v as u8
    }
}

/// Dims `color` to `tenths / 10` of its brightness, capping each channel at 127.
pub fn dim_by_tenths(color: RatColor, tenths: u8) -> (r: RatColor)
    ensures
        r == dim_spec(color, tenths),
{
    match color {
        RatColor::Rgb(r, g, b) => RatColor::Rgb(
            dim_channel(r, tenths),
            dim_channel(g, tenths),
            dim_channel(b, tenths),
        ),
        _ => RatColor::Gray,
    }
}

} // verus!
