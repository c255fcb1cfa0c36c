//! The paint resolver: from a fill's paint reference and opacity to a
//! concrete brush.
//!
//! A link into the definitions table resolves to a gradient brush; a
//! dangling link or a link to an unsupported definition kind degrades
//! to a fully transparent brush with a diagnostic, never an error.

use vstd::prelude::*;
use crate::geom::BBox;
use crate::gradient::{
    Brush, BrushV, TRANSPARENT, color_to_rgba, linear_brush, radial_brush, spec_color_rgba,
    spec_linear_brush, spec_radial_brush,
};
use crate::scene::{DefEntry, Defs, Fill, FillRule, Paint, PaintDef, spec_lookup};

verus! {

/// A named degradation outcome: rendering continued, but something
/// was substituted or skipped.
#[derive(Clone, Copy, Debug, PartialEq, Eq, Structural)]
pub enum Diagnostic {
    /// A fill linked to an identifier the definitions table lacks.
    DanglingPaintLink(u64),
    /// A fill linked to a definition kind this engine does not
    /// support, such as a pattern.
    UnsupportedPaintKind(u64),
    /// The shape carried a stroke; stroke painting is not
    /// implemented.
    UnsupportedStroke,
}

/// The brush a fill resolves to against a definitions table, and the
/// diagnostic the resolution raises, if any.
///
/// An inline color keeps its own channels with a fully opaque alpha:
/// the fill opacity is deliberately not folded into solid brushes
/// here; it is honored per stop when a gradient is built.
pub open spec fn spec_brush(entries: Seq<DefEntry>, fill: Fill, bbox: BBox) -> (BrushV, Option<
    Diagnostic,
>) {
    match fill.paint {
        Paint::Color(color) => (BrushV::Solid(spec_color_rgba(color, 0xff)), None),
        Paint::Link(id) => match spec_lookup(entries, id) {
            Some(PaintDef::Linear(lg)) => (spec_linear_brush(lg, fill.opacity), None),
            Some(PaintDef::Radial(rg)) => (spec_radial_brush(rg, fill.opacity), None),
            Some(PaintDef::Unsupported) => (
                BrushV::Solid(TRANSPARENT),
                Some(Diagnostic::UnsupportedPaintKind(id)),
            ),
            None => (BrushV::Solid(TRANSPARENT), Some(Diagnostic::DanglingPaintLink(id))),
        },
    }
}

/// Resolve a fill's paint reference into a brush.
///
/// `bbox` is the shape's style box, handed on to gradient building
/// for object-bounding-box addressed paints.
pub fn brush(tree: &Defs, fill: &Fill, bbox: BBox) -> (r: (Brush, Option<Diagnostic>))
    requires
        tree.wf(),
        fill.wf(),
    ensures
        r.0@ == spec_brush(tree.entries@, *fill, bbox).0,
        r.1 == spec_brush(tree.entries@, *fill, bbox).1,
{
    match fill.paint {
        Paint::Color(color) => (Brush::Solid(color_to_rgba(color, 0xff)), None),
        Paint::Link(id) => {
            match tree.find(id) {
                Some(ix) => {
                    match &tree.entries[ix].def {
                        PaintDef::Linear(lg) => (linear_brush(lg, fill.opacity, bbox), None),
                        PaintDef::Radial(rg) => (radial_brush(rg, fill.opacity, bbox), None),
                        PaintDef::Unsupported => (
                            Brush::Solid(TRANSPARENT),
                            Some(Diagnostic::UnsupportedPaintKind(id)),
                        ),
                    }
                },
                None => (Brush::Solid(TRANSPARENT), Some(Diagnostic::DanglingPaintLink(id))),
            }
        },
    }
}

/// The fill rule of a fill, handed through to the surface unchanged.
pub fn rule(fill: &Fill) -> (r: FillRule)
    ensures
        r == fill.rule,
{
    fill.rule
}


/// A dangling paint reference degrades, it does not fail: a fill
/// linked to an identifier the table lacks resolves to the fully
/// transparent brush and raises a diagnostic. Resolution is a pure
/// function of the fill and the table, so no sibling is affected.
pub proof fn lemma_dangling_link(entries: Seq<DefEntry>, fill: Fill, bbox: BBox, id: u64)
    requires
        fill.paint == Paint::Link(id),
        spec_lookup(entries, id) is None,
    ensures
        spec_brush(entries, fill, bbox).0 == BrushV::Solid(TRANSPARENT),
        spec_brush(entries, fill, bbox).1 == Some(Diagnostic::DanglingPaintLink(id)),
{
}

/// An unsupported definition kind degrades the same way, under its
/// own diagnostic.
pub proof fn lemma_unsupported_kind(entries: Seq<DefEntry>, fill: Fill, bbox: BBox, id: u64)
    requires
        fill.paint == Paint::Link(id),
        spec_lookup(entries, id) == Some(PaintDef::Unsupported),
    ensures
        spec_brush(entries, fill, bbox).0 == BrushV::Solid(TRANSPARENT),
        spec_brush(entries, fill, bbox).1 == Some(Diagnostic::UnsupportedPaintKind(id)),
{
}

} // verus!
