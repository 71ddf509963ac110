//! Lengths on screen: what a fence, its title bar and its icons measure in
//! physical pixels on a display of a given scale.

use crate::scale::{rounded, rounded_unsigned, times, whole, Scale};
use vstd::prelude::*;

verus! {

/// A point on screen.
#[derive(Clone, Copy, PartialEq, Eq, Structural, Debug)]
pub struct Point {
    pub x: i32,
    pub y: i32,
}

/// A rectangle on screen.  The right and the bottom line lie outside it.
#[derive(Clone, Copy, PartialEq, Eq, Structural, Debug)]
pub struct Rect {
    pub left: i32,
    pub top: i32,
    pub right: i32,
    pub bottom: i32,
}

/// The typeface of titles and labels.
pub const FONT_NAME: &'static str = "Microsoft YaHei UI";

/// The size of icons before anyone set it, in logical pixels.
pub const DEFAULT_ICON_PX: u32 = 32;

/// The size of titles before anyone set it, in logical pixels.
pub const DEFAULT_TITLE_FONT_PX: u32 = 12;

/// `v`, moved to the nearer bound where it lies outside them.
pub open spec fn clamped(v: int, low: int, high: int) -> int {
    if v < low {
        low
    } else if v > high {
        high
    } else {
        v
    }
}

/// The sizes that all fences share, in logical pixels.
#[derive(Clone, Copy, Debug)]
pub struct Metrics {
    icon_px: u32,
    title_font_px: u32,
}

impl Metrics {
    #[verifier::type_invariant]
    spec fn in_range(self) -> bool {
        &&& 16 <= self.icon_px <= 128
        &&& 10 <= self.title_font_px <= 32
    }

    /// The size of icons.
    pub closed spec fn icon_px(self) -> nat {
        self.icon_px as nat
    }

    /// The size of titles.
    pub closed spec fn title_font_px(self) -> nat {
        self.title_font_px as nat
    }
}

impl Default for Metrics {
    fn default() -> (r: Metrics)
        ensures
            r.icon_px() == DEFAULT_ICON_PX,
            r.title_font_px() == DEFAULT_TITLE_FONT_PX,
            r.icon_px() == 32 && r.title_font_px() == 12,
    {
        Metrics { icon_px: DEFAULT_ICON_PX, title_font_px: DEFAULT_TITLE_FONT_PX }
    }
}

/// Sets the size of icons, kept between 16 and 128.
pub fn set_icon_px(m: &mut Metrics, v: u32)
    ensures
        final(m).icon_px() == clamped(v as int, 16, 128),
        final(m).title_font_px() == old(m).title_font_px(),
{
    proof {
        use_type_invariant(&*m);
    }
    m.icon_px = if v < 16 {
        16
    } else if v > 128 {
        128
    } else {
        v
    };
}

/// Sets the size of titles, kept between 10 and 32.
pub fn set_title_font_px(m: &mut Metrics, v: u32)
    ensures
        final(m).title_font_px() == clamped(v as int, 10, 32),
        final(m).icon_px() == old(m).icon_px(),
{
    proof {
        use_type_invariant(&*m);
    }
    m.title_font_px = if v < 10 {
        10
    } else if v > 32 {
        32
    } else {
        v
    };
}

/// The factor of the system's own DPI, never below one.  For what has no
/// window yet.
pub fn dpi_scale(system_dpi: u32) -> (r: Scale)
    ensures
        r@ == scale_of(system_dpi),
{
    Scale::ratio(system_dpi).at_least_one()
}

/// The factor of the display that a window is on, never below one.
pub fn window_dpi(dpi_of_window: u32) -> (r: Scale)
    ensures
        r@ == scale_of(dpi_of_window),
{
    Scale::ratio(dpi_of_window).at_least_one()
}

/// The factor that belongs to a DPI value: its ratio to 96, but never below one.
pub open spec fn scale_of(dpi: u32) -> nat {
    let r = crate::scale::dpi_ratio(dpi);
    if r < crate::scale::ONE {
        crate::scale::ONE as nat
    } else {
        r
    }
}

/// The height of a title bar: the title and 18 logical pixels around it.
pub fn title_h(m: &Metrics, d: Scale) -> (r: i32)
    ensures
        r == title_height(m.title_font_px(), d@),
        r >= 0,
{
    proof {
        use_type_invariant(m);
    }
    d.round(m.title_font_px + 18)
}

/// What `title_h` gives for titles of `px` logical pixels at the factor `s`.
pub open spec fn title_height(px: nat, s: nat) -> int {
    rounded(times(px + 18, s))
}

/// How close to its border a fence can be taken hold of to resize it.
pub fn edge(d: Scale) -> (r: i32)
    ensures
        r == whole(times(8, d@)),
        r >= 0,
{
    d.floor(8)
}

/// The empty margin inside a fence.
pub fn margin(d: Scale) -> (r: i32)
    ensures
        r == whole(times(10, d@)),
        r >= 0,
{
    d.floor(10)
}

/// The strip on the right that the page dots have to themselves.
pub fn rail(d: Scale) -> (r: i32)
    ensures
        r == whole(times(22, d@)),
        r >= 0,
{
    d.floor(22)
}

/// The size of an icon.
pub fn icon(m: &Metrics, d: Scale) -> (r: i32)
    ensures
        r == icon_size(m.icon_px(), d@),
        r >= 0,
{
    d.round(m.icon_px)
}

/// What `icon` gives for icons of `px` logical pixels at the factor `s`.
pub open spec fn icon_size(px: nat, s: nat) -> int {
    rounded(times(px, s))
}

/// The height of a label: two lines and their shadow.
pub fn label_h(d: Scale) -> (r: i32)
    ensures
        r == whole(times(38, d@)),
        r >= 0,
{
    d.floor(38)
}

/// The width of an icon's cell.
pub fn cell_w(m: &Metrics, d: Scale) -> (r: i32)
    requires
        icon_size(m.icon_px(), d@) + 12 <= i32::MAX,
    ensures
        r == icon_size(m.icon_px(), d@) + 12,
{
    icon(m, d) + 12
}

/// The height of an icon's cell.
pub fn cell_h(m: &Metrics, d: Scale) -> (r: i32)
    requires
        icon_size(m.icon_px(), d@) + whole(times(38, d@)) <= i32::MAX,
    ensures
        r == icon_size(m.icon_px(), d@) + whole(times(38, d@)),
{
    icon(m, d) + label_h(d)
}

/// The least width of a fence.
pub fn min_w(d: Scale) -> (r: i32)
    ensures
        r == whole(times(180, d@)),
        r >= 0,
{
    d.floor(180)
}

/// The least height of a fence.
pub fn min_h(d: Scale) -> (r: i32)
    ensures
        r == whole(times(100, d@)),
        r >= 0,
{
    d.floor(100)
}

/// The size of titles, in units of 2^-30 pixels.
pub fn font_title(m: &Metrics, d: Scale) -> (r: u128)
    ensures
        r == times(m.title_font_px(), d@),
{
    d.product(m.title_font_px)
}

/// The size of labels, in units of 2^-30 pixels.
pub fn font_label(d: Scale) -> (r: u128)
    ensures
        r == times(12, d@),
{
    d.product(12)
}

/// What is inside the bounds stays; what is outside goes to the bound that it is
/// beyond.
pub proof fn clamping_moves_to_the_nearer_bound(v: int, low: int, high: int)
    requires
        low <= high,
    ensures
        low <= clamped(v, low, high) <= high,
        low <= v <= high ==> clamped(v, low, high) == v,
        v <= low ==> clamped(v, low, high) == low,
        v >= high ==> clamped(v, low, high) == high,
{
}

/// The factor of a display is never below one; up to 96 DPI it is one, and from
/// there on the DPI can be told from it.
pub proof fn factor_is_at_least_one(dpi: u32)
    ensures
        scale_of(dpi) >= 0x4000_0000,
        dpi <= 96 ==> scale_of(dpi) == 0x4000_0000,
        96 <= dpi <= 0xFFFF ==> rounded_unsigned(times(96, scale_of(dpi))) == dpi,
        96 <= dpi < 0x100_0000 ==> scale_of(dpi) == crate::scale::dpi_ratio(dpi),
{
    if dpi < 0x100_0000 {
        crate::scale::ratio_is_dpi_over_96(dpi);
    }
    if 96 <= dpi <= 0xFFFF {
        crate::scale::factor_tells_the_dpi(dpi);
        if dpi == 96 {
            crate::scale::unscaled_display_keeps(0);
        }
    }
}

/// On a display whose factor is a whole number, a title bar and an icon are so
/// many times as large as in logical pixels: the title and 18 around it, and the
/// icon itself.  On every display a title bar is as high as an icon of its size.
pub proof fn sizes_grow_with_the_factor(px: nat, m: nat, s: nat)
    requires
        (px + 18) * m < 0x100_0000,
        px + 18 < 0x100_0000,
    ensures
        title_height(px, s) == icon_size(px + 18, s),
        title_height(px, (m * 0x4000_0000) as nat) == (px + 18) * m,
        icon_size(px, (m * 0x4000_0000) as nat) == px * m,
{
    assert(px * m <= (px + 18) * m) by (nonlinear_arith);
    crate::scale::whole_factor_multiplies(px + 18, m);
    crate::scale::whole_factor_multiplies(px, m);
}

/// On every display the size of an icon is that in logical pixels times the
/// factor, to half a pixel and one part in 2^24, as long as it can be held.
pub proof fn icon_is_its_size_times_the_factor(px: nat, s: nat)
    requires
        px < 0x100_0000,
        icon_size(px, s) < i32::MAX,
    ensures
        2 * (icon_size(px, s) * 0x4000_0000 - px * s) <= 0x4000_0000 + px * s / 0x80_0000,
        2 * (px * s - icon_size(px, s) * 0x4000_0000) <= 0x4000_0000 + px * s / 0x80_0000,
{
    crate::scale::lengths_grow_with_the_factor(px, s);
    crate::scale::rounded_pixels_are_nearest(times(px, s));
}

} // verus!
