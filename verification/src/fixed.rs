use vstd::prelude::*;

verus! {

/// Horizontal positions are held in fixed point: one world unit is `FP_ONE`
/// ticks. Every constant the simulation uses (movement speeds, sprite
/// extents, the depth-key perturbation) is an exact multiple of one tick.
pub const FP_ONE: i64 = 10000;

/// Half the sprite quad's width, in fixed-point ticks (0.5 world units).
pub const SPRITE_HALF_WIDTH_FP: i64 = 5000;

/// Half the sprite quad's height, in fixed-point ticks (1.14 world units).
pub const SPRITE_HALF_HEIGHT_FP: i64 = 11400;

/// Collision footprint half-width: the sprite half-width inset by 0.01 world
/// units, so a sprite flush against a block face does not register a hit.
pub const PADDED_SPRITE_WIDTH_FP: i64 = 4900;

/// Width of one texture pixel in fixed-point ticks: blocks are eight pixels
/// wide, so one pixel is an eighth of a world unit.
pub const PIXEL_FP: i64 = 1250;

/// Bound on every world coordinate the simulation handles, in fixed-point
/// ticks; keeps all fixed-point arithmetic well inside `i64`.
pub const COORD_LIMIT: i64 = 10_000_000_000_000;

/// The whole world unit a fixed-point coordinate falls in (its floor).
pub open spec fn spec_floor_units(c: int) -> int {
    c / (FP_ONE as int)
}

/// The whole world unit a fixed-point coordinate falls in (its floor).
pub fn floor_units(c: i64) -> (r: i64)
    requires
        -COORD_LIMIT <= c <= COORD_LIMIT,
    ensures
        r == spec_floor_units(c as int),
        -1_000_000_000 <= r <= 1_000_000_000,
{
    proof {
        vstd::arithmetic::div_mod::lemma_fundamental_div_mod(c as int, FP_ONE as int);
        let q = (c as int) / (FP_ONE as int);
        let r = (c as int) % (FP_ONE as int);
        assert(-1_000_000_000 <= q <= 1_000_000_000) by (nonlinear_arith)
            requires
                c == 10000 * q + r,
                0 <= r < 10000,
                -10_000_000_000_000 <= c <= 10_000_000_000_000;
    }
    c.checked_div_euclid(FP_ONE).unwrap()
}

/// A coordinate rounded down to a whole texture pixel.
pub open spec fn spec_round_to_pixel(c: int) -> int {
    (c / (PIXEL_FP as int)) * (PIXEL_FP as int)
}

/// Round a coordinate down to a whole texture pixel, so sprites land on the
/// low-resolution pixel grid.
pub fn round_to_pixel(c: i64) -> (r: i64)
    requires
        -COORD_LIMIT <= c <= COORD_LIMIT,
    ensures
        r == spec_round_to_pixel(c as int),
        -COORD_LIMIT - PIXEL_FP <= r <= COORD_LIMIT,
{
    let q = c.checked_div_euclid(PIXEL_FP).unwrap();
    proof {
        vstd::arithmetic::div_mod::lemma_fundamental_div_mod(c as int, PIXEL_FP as int);
        vstd::arithmetic::div_mod::lemma_mod_division_less_than_divisor(c as int, PIXEL_FP as int);
    }
    q * PIXEL_FP
}

/// The sign the clamp formula uses for a movement amount: positive amounts
/// (zero included) count as forward.
pub open spec fn spec_move_sign(amount: int) -> int {
    if amount >= 0 {
        1
    } else {
        -1
    }
}

} // verus!
