//! Master-brightness levels for fading the screen in and out.
use vstd::prelude::*;

verus! {

/// Brightest level a fade reaches.
pub const MAX_BRIGHTNESS_LEVEL: i8 = 16;

/// Mode bits of the master-brightness register that brighten the screen.
pub const BRIGHTEN_MODE: u32 = 0x4000;

/// Mode bits of the master-brightness register that darken the screen.
pub const DARKEN_MODE: u32 = 0x8000;

/// The master-brightness register value for `level`: darkening for a
/// negative level, brightening otherwise, with the magnitude capped at 16.
pub open spec fn brightness_value_spec(level: i8) -> u32 {
    let magnitude = if level < 0 { -(level as int) } else { level as int };
    let capped = if magnitude < 16 { magnitude } else { 16 };
    ((if level < 0 { DARKEN_MODE } else { BRIGHTEN_MODE }) + capped) as u32
}

/// Computes the master-brightness register value for `level`.
pub fn brightness_value(level: i8) -> (r: u32)
    ensures
        r == brightness_value_spec(level),
{
    let mode: u32 = if level < 0 { DARKEN_MODE } else { BRIGHTEN_MODE };
    let magnitude: u32 = if level < 0 { (-(level as i32)) as u32 } else { level as u32 };
    let capped: u32 = if magnitude < 16 { magnitude } else { 16 };
    assert(mode | capped == mode + capped) by (bit_vector)
        requires
            mode == 0x4000u32 || mode == 0x8000u32,
            capped <= 16u32,
    ;
    mode | capped
}

/// The levels a fade-in steps through, one per frame: 16 down to 0.
pub fn fade_in() -> (r: Vec<i8>)
    ensures
        r@ == Seq::new(17, |k: int| (16 - k) as i8),
{
    let mut levels: Vec<i8> = Vec::new();
    let mut level: i8 = MAX_BRIGHTNESS_LEVEL;
    while level >= 0
        invariant
            -1 <= level <= 16,
            levels@ == Seq::new((16 - level) as nat, |k: int| (16 - k) as i8),
        decreases level + 1,
    {
        levels.push(level);
        level = level - 1;
        assert(levels@ =~= Seq::new((16 - level) as nat, |k: int| (16 - k) as i8));
    }
    levels
}

/// The levels a fade-out steps through, one per frame: 0 up to 16.
pub fn fade_out() -> (r: Vec<i8>)
    ensures
        r@ == Seq::new(17, |k: int| k as i8),
{
    let mut levels: Vec<i8> = Vec::new();
    let mut level: i8 = 0;
    while level <= MAX_BRIGHTNESS_LEVEL
        invariant
            0 <= level <= 17,
            levels@ == Seq::new(level as nat, |k: int| k as i8),
        decreases 17 - level,
    {
        levels.push(level);
        level = level + 1;
        assert(levels@ =~= Seq::new(level as nat, |k: int| k as i8));
    }
    levels
}

} // verus!
