//! The scene model: nodes, path geometry, paints and the document-wide
//! table of paint definitions.
//!
//! Opacities are stored in thousandths (`0` transparent, `OPACITY_ONE`
//! opaque); gradient stop offsets are stored in thousandths of the
//! gradient axis and are passed through unclamped. Coordinates are
//! fixed-point as described in [`crate::geom`].

use vstd::prelude::*;
use crate::geom::{Transform, in_range};

verus! {

/// A fully opaque opacity, in thousandths.
pub const OPACITY_ONE: u16 = 1000;

/// An opacity value is at most fully opaque.
pub open spec fn opacity_wf(o: u16) -> bool {
    o <= OPACITY_ONE
}

/// An RGB color; opacity travels separately.
#[derive(Clone, Copy, Debug, PartialEq, Eq, Structural)]
pub struct Color {
    pub red: u8,
    pub green: u8,
    pub blue: u8,
}

/// What a fill refers to: an inline color or a link into the
/// definitions table.
#[derive(Clone, Copy, Debug, PartialEq, Eq, Structural)]
pub enum Paint {
    Color(Color),
    Link(u64),
}

/// The rule deciding which regions of a self-intersecting path are
/// inside it.
#[derive(Clone, Copy, Debug, PartialEq, Eq, Structural)]
pub enum FillRule {
    NonZero,
    EvenOdd,
}

/// A shape's fill: a paint reference, a fill opacity in thousandths,
/// and a fill rule.
#[derive(Clone, Copy, Debug, PartialEq, Eq, Structural)]
pub struct Fill {
    pub paint: Paint,
    pub opacity: u16,
    pub rule: FillRule,
}

impl Fill {
    pub open spec fn wf(self) -> bool {
        opacity_wf(self.opacity)
    }
}

/// Stroke line cap style. Stroking itself is an acknowledged non-goal;
/// the cap style is kept because sub-path construction must not close
/// paths that an open cap style would leave open.
#[derive(Clone, Copy, Debug, PartialEq, Eq, Structural)]
pub enum LineCap {
    Butt,
    Round,
    Square,
}

/// A shape's stroke. Only the cap style matters to this engine.
#[derive(Clone, Copy, Debug, PartialEq, Eq, Structural)]
pub struct Stroke {
    pub linecap: LineCap,
}

/// One path segment.
#[derive(Clone, Copy, Debug, PartialEq, Eq, Structural)]
pub enum Segment {
    MoveTo { x: i64, y: i64 },
    LineTo { x: i64, y: i64 },
    CurveTo { x1: i64, y1: i64, x2: i64, y2: i64, x: i64, y: i64 },
    ClosePath,
}

impl Segment {
    /// All coordinates of the segment are inside the coordinate range.
    pub open spec fn wf(self) -> bool {
        match self {
            Segment::MoveTo { x, y } => in_range(x as int) && in_range(y as int),
            Segment::LineTo { x, y } => in_range(x as int) && in_range(y as int),
            Segment::CurveTo { x1, y1, x2, y2, x, y } => {
                &&& in_range(x1 as int)
                &&& in_range(y1 as int)
                &&& in_range(x2 as int)
                &&& in_range(y2 as int)
                &&& in_range(x as int)
                &&& in_range(y as int)
            },
            Segment::ClosePath => true,
        }
    }
}

/// One gradient stop: an offset along the gradient axis in
/// thousandths (passed through as given, even out of range), a color,
/// and a per-stop opacity in thousandths.
#[derive(Clone, Copy, Debug, PartialEq, Eq, Structural)]
pub struct Stop {
    pub offset: u32,
    pub color: Color,
    pub opacity: u16,
}

impl Stop {
    pub open spec fn wf(self) -> bool {
        opacity_wf(self.opacity)
    }
}

/// The part shared by linear and radial gradients: the ordered stop
/// list. The order is load-bearing and is preserved everywhere.
#[derive(Clone, Debug)]
pub struct BaseGradient {
    pub stops: Vec<Stop>,
}

impl BaseGradient {
    pub open spec fn wf(self) -> bool {
        forall|i: int| 0 <= i < self.stops@.len() ==> (#[trigger] self.stops@[i]).wf()
    }
}

/// A linear gradient definition: two endpoints and the shared base.
#[derive(Clone, Debug)]
pub struct LinearGradient {
    pub x1: i64,
    pub y1: i64,
    pub x2: i64,
    pub y2: i64,
    pub base: BaseGradient,
}

impl LinearGradient {
    pub open spec fn wf(self) -> bool {
        &&& in_range(self.x1 as int)
        &&& in_range(self.y1 as int)
        &&& in_range(self.x2 as int)
        &&& in_range(self.y2 as int)
        &&& self.base.wf()
    }
}

/// A radial gradient definition: a center, a focal point stored as an
/// offset from the center, a radius, and the shared base.
#[derive(Clone, Debug)]
pub struct RadialGradient {
    pub cx: i64,
    pub cy: i64,
    pub fx: i64,
    pub fy: i64,
    pub r: i64,
    pub base: BaseGradient,
}

impl RadialGradient {
    pub open spec fn wf(self) -> bool {
        &&& in_range(self.cx as int)
        &&& in_range(self.cy as int)
        &&& in_range(self.fx as int)
        &&& in_range(self.fy as int)
        &&& in_range(self.r as int)
        &&& self.base.wf()
    }
}

/// One entry of the definitions table. Kinds this engine does not
/// support (patterns and the like) appear as `Unsupported` and degrade
/// to a transparent paint with a diagnostic, never an error.
#[derive(Clone, Debug)]
pub enum PaintDef {
    Linear(LinearGradient),
    Radial(RadialGradient),
    Unsupported,
}

impl PaintDef {
    pub open spec fn wf(self) -> bool {
        match self {
            PaintDef::Linear(lg) => lg.wf(),
            PaintDef::Radial(rg) => rg.wf(),
            PaintDef::Unsupported => true,
        }
    }
}

/// A keyed entry of the definitions table.
#[derive(Clone, Debug)]
pub struct DefEntry {
    pub id: u64,
    pub def: PaintDef,
}

/// The document-wide, read-only table of paint definitions, passed
/// down by reference through the whole traversal. Lookup takes the
/// first entry with the given identifier.
#[derive(Clone, Debug)]
pub struct Defs {
    pub entries: Vec<DefEntry>,
}

/// The definition the table gives for `id`: the first entry with that
/// identifier, if any.
pub open spec fn spec_lookup(entries: Seq<DefEntry>, id: u64) -> Option<PaintDef>
    decreases entries.len(),
{
    if entries.len() == 0 {
        None
    } else if entries[0].id == id {
        Some(entries[0].def)
    } else {
        spec_lookup(entries.drop_first(), id)
    }
}

impl Defs {
    pub open spec fn wf(self) -> bool {
        forall|i: int| 0 <= i < self.entries@.len() ==> (#[trigger] self.entries@[i]).def.wf()
    }

    /// Find the index of the first entry with the given identifier.
    /// Returns `None` exactly when the table has no such entry.
    pub fn find(&self, id: u64) -> (r: Option<usize>)
        ensures
            match r {
                Some(i) => {
                    &&& i < self.entries@.len()
                    &&& self.entries@[i as int].id == id
                    &&& spec_lookup(self.entries@, id) == Some(self.entries@[i as int].def)
                },
                None => spec_lookup(self.entries@, id) is None,
            },
    {
        let n = self.entries.len();
        let mut i: usize = 0;
        proof {
            assert(self.entries@.skip(0) =~= self.entries@);
        }
        while i < n
            invariant
                i <= n,
                n == self.entries@.len(),
                spec_lookup(self.entries@, id) == spec_lookup(self.entries@.skip(i as int), id),
                forall|j: int| 0 <= j < i ==> (#[trigger] self.entries@[j]).id != id,
            decreases n - i,
        {
            if self.entries[i].id == id {
                proof {
                    assert(self.entries@.skip(i as int)[0] == self.entries@[i as int]);
                }
                return Some(i);
            }
            proof {
                assert(self.entries@.skip(i as int).drop_first()
                    =~= self.entries@.skip(i as int + 1));
                assert(self.entries@.skip(i as int)[0] == self.entries@[i as int]);
            }
            i = i + 1;
        }
        proof {
            assert(self.entries@.skip(n as int).len() == 0);
        }
        None
    }
}

/// A shape node: geometry plus style. The transform is local,
/// relative to the parent.
#[derive(Clone, Debug)]
pub struct Shape {
    pub transform: Transform,
    pub visible: bool,
    pub fill: Option<Fill>,
    pub stroke: Option<Stroke>,
    pub segments: Vec<Segment>,
}

impl Shape {
    pub open spec fn wf(self) -> bool {
        &&& self.transform.wf()
        &&& match self.fill {
            Some(f) => f.wf(),
            None => true,
        }
        &&& forall|i: int| 0 <= i < self.segments@.len() ==> (#[trigger] self.segments@[i]).wf()
    }
}

/// A container node: an ordered sequence of children. The order is
/// paint order: later children are drawn on top.
pub struct Group {
    pub transform: Transform,
    pub children: Vec<Node>,
}

/// A scene node: a container or a shape. The document root is treated
/// as a container for traversal.
pub enum Node {
    Group(Group),
    Shape(Shape),
}

impl Node {
    /// The node's local transform, relative to its parent.
    pub open spec fn spec_transform(self) -> Transform {
        match self {
            Node::Group(g) => g.transform,
            Node::Shape(s) => s.transform,
        }
    }

    /// The node's local transform, relative to its parent.
    pub fn transform(&self) -> (r: Transform)
        ensures
            r == self.spec_transform(),
    {
        match self {
            Node::Group(g) => g.transform,
            Node::Shape(s) => s.transform,
        }
    }

    /// Every transform, fill and segment in the subtree is well formed.
    pub open spec fn wf(self) -> bool
        decreases self,
    {
        match self {
            Node::Group(g) => {
                &&& g.transform.wf()
                &&& forall|i: int|
                    0 <= i < g.children@.len() ==> (#[trigger] g.children@[i]).wf()
            },
            Node::Shape(s) => s.wf(),
        }
    }
}

} // verus!
