//! Video modes and current-mode resolution.
//!
//! A mode's number is an opaque selector assigned by the mode manager: the
//! only valid input to mode-setting, never allocated or inferred here, only
//! read and echoed back. Which enumerated mode is current is decided in one
//! of two ways: an authoritative current-mode number from the manager pins
//! exactly the entry with that number; failing that, a mode is matched
//! against the public API's reported geometry within fixed tolerances. The
//! tolerances are configurable but default to the values the tool has always
//! used. Fractional quantities (refresh rates, scale factors) are carried in
//! thousandths, so every comparison is exact integer arithmetic.

use vstd::prelude::*;

verus! {

/// One video mode, flattened to plain values. The scale factor is in
/// thousandths (1000 is 1:1, 2000 renders at twice the logical density).
#[derive(Clone, Copy, Debug, PartialEq, Eq, Structural)]
pub struct ModeDescriptor {
    /// The manager's opaque selector for this mode.
    pub mode_number: i32,
    /// Logical width in points.
    pub width: i32,
    /// Logical height in points.
    pub height: i32,
    /// Backing width in pixels.
    pub pixels_wide: i32,
    /// Backing height in pixels.
    pub pixels_high: i32,
    /// Refresh rate in whole hertz, as the manager reports it.
    pub refresh_rate: i32,
    /// Scale factor in thousandths.
    pub scale_milli: u32,
    /// The mode renders at more than 1:1 pixel density.
    pub is_hidpi: bool,
    /// The manager flags the mode as Retina.
    pub is_retina: bool,
    /// The mode is the panel's native one.
    pub is_native: bool,
    /// The mode is the panel's default one.
    pub is_default: bool,
    /// The mode is meant to be shown to users; hidden modes are filtered
    /// out of every listing.
    pub is_user_visible: bool,
}

/// The public API's view of a display's current geometry: logical size in
/// points and refresh rate in thousandths of a hertz.
#[derive(Clone, Copy, Debug, PartialEq, Eq, Structural)]
pub struct CgGeometry {
    /// Logical width in points.
    pub width: u64,
    /// Logical height in points.
    pub height: u64,
    /// Refresh rate in millihertz.
    pub refresh_milli: u64,
}

/// How closely a mode must agree with the public geometry to count as
/// current, each bound in thousandths of the quantity's unit and exclusive.
#[derive(Clone, Copy, Debug, PartialEq, Eq, Structural)]
pub struct Tolerances {
    /// Bound on the logical size difference, in thousandths of a point.
    pub logical_milli: u64,
    /// Bound on the refresh-rate difference, in millihertz.
    pub refresh_milli: u64,
    /// Bound on the pixel-size difference, in thousandths of a pixel.
    pub pixel_milli: u64,
}

impl Default for Tolerances {
    /// The defaults: a tenth of a point of logical size, one hertz of
    /// refresh rate, and one pixel on each axis.
    fn default() -> (r: Self)
        ensures
            r == (Tolerances { logical_milli: 100, refresh_milli: 1000, pixel_milli: 1000 }),
    {
        Tolerances { logical_milli: 100, refresh_milli: 1000, pixel_milli: 1000 }
    }
}

/// The distance between two integers.
pub open spec fn abs_diff(a: int, b: int) -> int {
    if a >= b {
        a - b
    } else {
        b - a
    }
}

/// Whether two lengths agree within a bound given in thousandths.
pub open spec fn axis_match(cg: int, m: int, tol: int) -> bool {
    abs_diff(cg * 1000, m * 1000) < tol
}

/// Whether a mode's whole-hertz refresh rate agrees with the public API's
/// millihertz one within the bound.
pub open spec fn refresh_match(cg_milli: int, m_hertz: int, tol: int) -> bool {
    abs_diff(cg_milli, m_hertz * 1000) < tol
}

/// A nonnegative count of thousandths rounded to the nearest whole unit,
/// halves away from zero.
pub open spec fn round_milli(n: int) -> int {
    (n + 500) / 1000
}

/// The pixel count a mode's scale factor predicts for a logical length:
/// the length times the scale, rounded to a whole pixel.
pub open spec fn expected_pixels(cg_axis: int, scale_milli: int) -> int {
    round_milli(cg_axis * scale_milli)
}

/// Whether a mode's stored pixel count agrees with the one its scale factor
/// predicts from the public logical length, within the bound.
pub open spec fn pixel_match(cg_axis: int, scale_milli: int, m_pixels: int, tol: int) -> bool {
    abs_diff(expected_pixels(cg_axis, scale_milli) * 1000, m_pixels * 1000) < tol
}

/// The geometry fallback for current-mode resolution: logical size, refresh
/// rate, and scale-predicted pixel size must all agree within tolerance.
/// Several modes can share a logical size and differ only by scale, so the
/// pixel clause is what tells such variants apart.
pub open spec fn heuristic_matches(cg: CgGeometry, m: ModeDescriptor, tol: Tolerances) -> bool {
    &&& axis_match(cg.width as int, m.width as int, tol.logical_milli as int)
    &&& axis_match(cg.height as int, m.height as int, tol.logical_milli as int)
    &&& refresh_match(cg.refresh_milli as int, m.refresh_rate as int, tol.refresh_milli as int)
    &&& pixel_match(cg.width as int, m.scale_milli as int, m.pixels_wide as int, tol.pixel_milli as int)
    &&& pixel_match(cg.height as int, m.scale_milli as int, m.pixels_high as int, tol.pixel_milli as int)
}

/// What a command knows about a display's current mode before resolution:
/// the manager's authoritative number if it gave one, and the public API's
/// reported geometry if it gave one.
#[derive(Clone, Copy, Debug, PartialEq, Eq, Structural)]
pub struct CurrentModeContext {
    /// The manager's own current-mode number: the single source of truth
    /// when present.
    pub authoritative: Option<i32>,
    /// The public API's current geometry, the fallback signal.
    pub geometry: Option<CgGeometry>,
}

/// Whether a mode counts as current: by number against an authoritative
/// signal, else by geometry within tolerance, else not at all.
pub open spec fn is_current_mode(m: ModeDescriptor, ctx: CurrentModeContext, tol: Tolerances) -> bool {
    match ctx.authoritative {
        Some(n) => m.mode_number == n,
        None => match ctx.geometry {
            Some(g) => heuristic_matches(g, m, tol),
            None => false,
        },
    }
}

fn abs_diff_i128(a: i128, b: i128) -> (r: i128)
    requires
        -0x4000_0000_0000_0000_0000_0000_0000_0000 < a
            < 0x4000_0000_0000_0000_0000_0000_0000_0000,
        -0x4000_0000_0000_0000_0000_0000_0000_0000 < b
            < 0x4000_0000_0000_0000_0000_0000_0000_0000,
    ensures
        r == abs_diff(a as int, b as int),
{
    if a >= b {
        a - b
    } else {
        b - a
    }
}

fn axis_match_exec(cg: u64, m: i32, tol: u64) -> (r: bool)
    ensures
        r == axis_match(cg as int, m as int, tol as int),
{
    let a: i128 = (cg as i128) * 1000;
    let b: i128 = (m as i128) * 1000;
    abs_diff_i128(a, b) < tol as i128
}

fn refresh_match_exec(cg_milli: u64, m_hertz: i32, tol: u64) -> (r: bool)
    ensures
        r == refresh_match(cg_milli as int, m_hertz as int, tol as int),
{
    let a: i128 = cg_milli as i128;
    let b: i128 = (m_hertz as i128) * 1000;
    abs_diff_i128(a, b) < tol as i128
}

fn pixel_match_exec(cg_axis: u64, scale_milli: u32, m_pixels: i32, tol: u64) -> (r: bool)
    ensures
        r == pixel_match(cg_axis as int, scale_milli as int, m_pixels as int, tol as int),
{
    proof {
        assert((cg_axis as int) * (scale_milli as int) <= 0xffff_ffff_ffff_ffff * 0xffff_ffff)
            by (nonlinear_arith)
            requires
                0 <= cg_axis <= 0xffff_ffff_ffff_ffff,
                0 <= scale_milli <= 0xffff_ffff,
        ;
        assert((cg_axis as int) * (scale_milli as int) >= 0) by (nonlinear_arith)
            requires
                cg_axis >= 0,
                scale_milli >= 0,
        ;
    }
    let product: u128 = (cg_axis as u128) * (scale_milli as u128);
    let expected: u128 = (product + 500) / 1000;
    assert(expected == expected_pixels(cg_axis as int, scale_milli as int));
    let a: i128 = (expected as i128) * 1000;
    let b: i128 = (m_pixels as i128) * 1000;
    abs_diff_i128(a, b) < tol as i128
}

/// Decides the geometry fallback: whether this mode agrees with the public
/// API's current geometry within the given tolerances.
pub fn matches_cg_geometry(cg: &CgGeometry, m: &ModeDescriptor, tol: &Tolerances) -> (r: bool)
    ensures
        r == heuristic_matches(*cg, *m, *tol),
{
    axis_match_exec(cg.width, m.width, tol.logical_milli)
        && axis_match_exec(cg.height, m.height, tol.logical_milli)
        && refresh_match_exec(cg.refresh_milli, m.refresh_rate, tol.refresh_milli)
        && pixel_match_exec(cg.width, m.scale_milli, m.pixels_wide, tol.pixel_milli)
        && pixel_match_exec(cg.height, m.scale_milli, m.pixels_high, tol.pixel_milli)
}

/// Decides whether a mode is the display's current one, preferring the
/// authoritative signal and falling back to geometry matching.
pub fn mode_is_current(m: &ModeDescriptor, ctx: &CurrentModeContext, tol: &Tolerances) -> (r: bool)
    ensures
        r == is_current_mode(*m, *ctx, *tol),
{
    match ctx.authoritative {
        Some(n) => m.mode_number == n,
        None => match &ctx.geometry {
            Some(g) => matches_cg_geometry(g, m, tol),
            None => false,
        },
    }
}

} // verus!
