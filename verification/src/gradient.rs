//! The gradient builder: turning a gradient definition and a fill
//! opacity into the drawing surface's gradient representation.
//!
//! Each emitted stop keeps its definition-order position and carries
//! `alpha = round(stop_opacity * fill_opacity * 255)`; positions are
//! passed through as given, unclamped.

use vstd::prelude::*;
use crate::geom::BBox;
use crate::scene::{BaseGradient, Color, LinearGradient, RadialGradient, Stop, opacity_wf};

verus! {

/// One stop of a surface gradient: a position in thousandths and a
/// packed RGBA color.
#[derive(Clone, Copy, Debug, PartialEq, Eq, Structural)]
pub struct GradientStop {
    pub pos: u32,
    pub rgba: u32,
}

/// A surface linear gradient: two absolute endpoints and stops.
#[derive(Debug, PartialEq)]
pub struct LinearBrush {
    pub x1: i64,
    pub y1: i64,
    pub x2: i64,
    pub y2: i64,
    pub stops: Vec<GradientStop>,
}

/// A surface radial gradient: center, focal offset from the center,
/// radius, and stops.
#[derive(Debug, PartialEq)]
pub struct RadialBrush {
    pub cx: i64,
    pub cy: i64,
    pub fx: i64,
    pub fy: i64,
    pub r: i64,
    pub stops: Vec<GradientStop>,
}

/// A resolved paint, ready for the drawing surface: a solid packed
/// RGBA color, or a gradient.
#[derive(Debug, PartialEq)]
pub enum Brush {
    Solid(u32),
    Linear(LinearBrush),
    Radial(RadialBrush),
}

/// The mathematical value of a linear gradient brush.
pub struct LinearBrushV {
    pub x1: i64,
    pub y1: i64,
    pub x2: i64,
    pub y2: i64,
    pub stops: Seq<GradientStop>,
}

/// The mathematical value of a radial gradient brush.
pub struct RadialBrushV {
    pub cx: i64,
    pub cy: i64,
    pub fx: i64,
    pub fy: i64,
    pub r: i64,
    pub stops: Seq<GradientStop>,
}

/// The mathematical value of a brush.
pub enum BrushV {
    Solid(u32),
    Linear(LinearBrushV),
    Radial(RadialBrushV),
}

impl View for LinearBrush {
    type V = LinearBrushV;

    open spec fn view(&self) -> LinearBrushV {
        LinearBrushV {
            x1: self.x1,
            y1: self.y1,
            x2: self.x2,
            y2: self.y2,
            stops: self.stops@,
        }
    }
}

impl View for RadialBrush {
    type V = RadialBrushV;

    open spec fn view(&self) -> RadialBrushV {
        RadialBrushV {
            cx: self.cx,
            cy: self.cy,
            fx: self.fx,
            fy: self.fy,
            r: self.r,
            stops: self.stops@,
        }
    }
}

impl View for Brush {
    type V = BrushV;

    open spec fn view(&self) -> BrushV {
        match self {
            Brush::Solid(rgba) => BrushV::Solid(*rgba),
            Brush::Linear(lb) => BrushV::Linear(lb@),
            Brush::Radial(rb) => BrushV::Radial(rb@),
        }
    }
}

/// A fully transparent packed RGBA color.
pub const TRANSPARENT: u32 = 0;

/// A color packed as `0xRRGGBBAA`.
pub open spec fn spec_color_rgba(color: Color, alpha: u8) -> u32 {
    (color.red * 0x100_0000 + color.green * 0x1_0000 + color.blue * 0x100 + alpha) as u32
}

/// Pack a color and an alpha value as `0xRRGGBBAA`.
pub fn color_to_rgba(color: Color, alpha: u8) -> (r: u32)
    ensures
        r == spec_color_rgba(color, alpha),
{
    (color.red as u32) * 0x100_0000 + (color.green as u32) * 0x1_0000
        + (color.blue as u32) * 0x100 + (alpha as u32)
}

/// The alpha of one emitted stop: the stop's own opacity and the
/// shape's fill opacity multiplied, scaled to 255 and rounded to the
/// nearest integer. Both opacities at one half give 64, not 128.
pub open spec fn spec_stop_alpha(stop_opacity: u16, fill_opacity: u16) -> u8 {
    ((stop_opacity * fill_opacity * 255 + 500_000) / 1_000_000) as u8
}

/// Combine a stop opacity with the fill opacity into a stop alpha.
pub fn stop_alpha(stop_opacity: u16, fill_opacity: u16) -> (r: u8)
    requires
        opacity_wf(stop_opacity),
        opacity_wf(fill_opacity),
    ensures
        r == spec_stop_alpha(stop_opacity, fill_opacity),
{
    proof {
        crate::geom::lemma_mul_bound(stop_opacity as int, fill_opacity as int, 1000, 1000);
    }
    let p: u64 = (stop_opacity as u64) * (fill_opacity as u64) * 255 + 500_000;
    let a: u64 = p / 1_000_000;
    assert(a <= 255);
    a as u8
}

/// The emitted stops: definition order kept, positions passed
/// through, alphas combined from stop and fill opacity.
pub open spec fn spec_gradient_stops(stops: Seq<Stop>, fill_opacity: u16) -> Seq<GradientStop> {
    stops.map_values(
        |st: Stop|
            GradientStop {
                pos: st.offset,
                rgba: spec_color_rgba(st.color, spec_stop_alpha(st.opacity, fill_opacity)),
            },
    )
}

/// Build the surface stops for a gradient's base.
pub fn gradient_stops(gradient: &BaseGradient, opacity: u16) -> (r: Vec<GradientStop>)
    requires
        gradient.wf(),
        opacity_wf(opacity),
    ensures
        r@ == spec_gradient_stops(gradient.stops@, opacity),
{
    let n = gradient.stops.len();
    let mut out: Vec<GradientStop> = Vec::new();
    let mut i: usize = 0;
    while i < n
        invariant
            i <= n,
            n == gradient.stops@.len(),
            gradient.wf(),
            opacity_wf(opacity),
            out@.len() == i,
            forall|j: int|
                0 <= j < i ==> out@[j] == spec_gradient_stops(gradient.stops@, opacity)[j],
        decreases n - i,
    {
        let st = gradient.stops[i];
        let alpha = stop_alpha(st.opacity, opacity);
        out.push(GradientStop { pos: st.offset, rgba: color_to_rgba(st.color, alpha) });
        i = i + 1;
    }
    proof {
        assert(out@ =~= spec_gradient_stops(gradient.stops@, opacity));
    }
    out
}

/// The brush a linear gradient definition resolves to under a fill
/// opacity.
pub open spec fn spec_linear_brush(gradient: LinearGradient, opacity: u16) -> BrushV {
    BrushV::Linear(
        LinearBrushV {
            x1: gradient.x1,
            y1: gradient.y1,
            x2: gradient.x2,
            y2: gradient.y2,
            stops: spec_gradient_stops(gradient.base.stops@, opacity),
        },
    )
}

/// The brush a radial gradient definition resolves to under a fill
/// opacity.
pub open spec fn spec_radial_brush(gradient: RadialGradient, opacity: u16) -> BrushV {
    BrushV::Radial(
        RadialBrushV {
            cx: gradient.cx,
            cy: gradient.cy,
            fx: gradient.fx,
            fy: gradient.fy,
            r: gradient.r,
            stops: spec_gradient_stops(gradient.base.stops@, opacity),
        },
    )
}

/// Build a linear gradient brush. The endpoints come straight from
/// the definition. `bbox` is the shape's style box, passed through
/// for object-bounding-box addressed gradients; this builder works in
/// absolute coordinates and does not consult it.
pub fn linear_brush(gradient: &LinearGradient, opacity: u16, bbox: BBox) -> (r: Brush)
    requires
        gradient.wf(),
        opacity_wf(opacity),
    ensures
        r@ == spec_linear_brush(*gradient, opacity),
{
    let _ = bbox;
    let stops = gradient_stops(&gradient.base, opacity);
    Brush::Linear(
        LinearBrush {
            x1: gradient.x1,
            y1: gradient.y1,
            x2: gradient.x2,
            y2: gradient.y2,
            stops,
        },
    )
}

/// Build a radial gradient brush: center, focal offset from center,
/// radius. `bbox` is passed through as for [`linear_brush`].
pub fn radial_brush(gradient: &RadialGradient, opacity: u16, bbox: BBox) -> (r: Brush)
    requires
        gradient.wf(),
        opacity_wf(opacity),
    ensures
        r@ == spec_radial_brush(*gradient, opacity),
{
    let _ = bbox;
    let stops = gradient_stops(&gradient.base, opacity);
    Brush::Radial(
        RadialBrush {
            cx: gradient.cx,
            cy: gradient.cy,
            fx: gradient.fx,
            fy: gradient.fy,
            r: gradient.r,
            stops,
        },
    )
}

} // verus!
