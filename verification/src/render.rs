//! The node renderer and group accumulator: the recursive walk that
//! composes transforms down the tree, decomposes geometry, resolves
//! paints, and accumulates bounding boxes bottom-up.
//!
//! The drawing surface is an external collaborator, so the walk does
//! not call it: it emits a flat command list the surface's driver
//! replays. Transform and clip state follow strict stack discipline:
//! every child is bracketed by a `PushState`/`PopState` pair, on every
//! path through the walk, so an invisible shape can never leak a save.

use vstd::prelude::*;
use crate::fill::{Diagnostic, brush, rule, spec_brush};
use crate::geom::{BBox, SCALE, Transform, lemma_union_assoc, spec_transform_bbox, spec_union};
use crate::gradient::{Brush, BrushV, color_to_rgba, spec_color_rgba};
use crate::path::{
    create_subpath, draw_path, path_bbox, spec_path_bbox, spec_subpaths, views_of,
};
use crate::scene::{Color, DefEntry, Defs, FillRule, Group, LineCap, Node, Segment, Shape};

verus! {

broadcast use vstd::std_specs::vec::group_vec_axioms;

/// One drawing-surface command. `Report` carries a diagnostic for the
/// driver's log; the surface draws nothing for it.
#[derive(Debug, PartialEq)]
pub enum Command {
    /// Save the surface's transform and clip state.
    PushState,
    /// Compose the given transform onto the surface's current one.
    ApplyTransform(Transform),
    /// Fill one sub-path with a brush under a fill rule.
    Fill { path: Vec<Segment>, brush: Brush, rule: FillRule },
    /// Clear the whole surface to a packed RGBA color.
    Clear(u32),
    /// A named degradation outcome; nothing is drawn.
    Report(Diagnostic),
    /// Restore the most recently saved state.
    PopState,
}

/// The mathematical value of a command.
pub enum CommandV {
    PushState,
    ApplyTransform(Transform),
    Fill { path: Seq<Segment>, brush: BrushV, rule: FillRule },
    Clear(u32),
    Report(Diagnostic),
    PopState,
}

impl View for Command {
    type V = CommandV;

    open spec fn view(&self) -> CommandV {
        match self {
            Command::PushState => CommandV::PushState,
            Command::ApplyTransform(t) => CommandV::ApplyTransform(*t),
            Command::Fill { path, brush, rule } => CommandV::Fill {
                path: path@,
                brush: brush@,
                rule: *rule,
            },
            Command::Clear(c) => CommandV::Clear(*c),
            Command::Report(d) => CommandV::Report(*d),
            Command::PopState => CommandV::PopState,
        }
    }
}

/// The values of a command list.
pub open spec fn cmd_views(q: Seq<Command>) -> Seq<CommandV> {
    q.map_values(|c: Command| c@)
}

/// The box handed to paint resolution: the shape's own box, or the
/// unit square when the shape has no geometry-derived box. A paint
/// anchored to an empty box is never referenced, so the substitute is
/// never sampled, but the interface requires a value.
pub open spec fn spec_style_bbox(segments: Seq<Segment>) -> BBox {
    match spec_path_bbox(segments) {
        BBox::Empty => BBox::Rect { x0: 0i64, y0: 0i64, x1: SCALE, y1: SCALE },
        b => b,
    }
}

/// One fill command per sub-path, in sub-path order.
pub open spec fn spec_fill_cmds(subs: Seq<Seq<Segment>>, b: BrushV, rl: FillRule) -> Seq<
    CommandV,
> {
    subs.map_values(|sp: Seq<Segment>| CommandV::Fill { path: sp, brush: b, rule: rl })
}

/// A report command for a raised diagnostic, or nothing.
pub open spec fn spec_report(d: Option<Diagnostic>) -> Seq<CommandV> {
    match d {
        Some(dd) => seq![CommandV::Report(dd)],
        None => Seq::empty(),
    }
}

/// The commands one shape adds: nothing when it is invisible;
/// otherwise any paint diagnostic, one fill per sub-path, and a
/// stroke diagnostic when a stroke is present, since stroke painting
/// is an acknowledged non-goal that must not be dropped silently.
pub open spec fn spec_draw_cmds(shape: Shape, entries: Seq<DefEntry>) -> Seq<CommandV> {
    if !shape.visible {
        Seq::empty()
    } else {
        (match shape.fill {
            Some(f) => spec_report(spec_brush(entries, f, spec_style_bbox(shape.segments@)).1)
                + spec_fill_cmds(
                spec_subpaths(shape.segments@),
                spec_brush(entries, f, spec_style_bbox(shape.segments@)).0,
                f.rule,
            ),
            None => Seq::empty(),
        }) + (match shape.stroke {
            Some(_) => seq![CommandV::Report(Diagnostic::UnsupportedStroke)],
            None => Seq::empty(),
        })
    }
}

/// The box a shape reports upward: its raw-segment box, or nothing
/// when no segment carries a coordinate. Visibility plays no part.
pub open spec fn spec_draw_bbox(shape: Shape) -> Option<BBox> {
    match spec_path_bbox(shape.segments@) {
        BBox::Empty => None,
        b => Some(b),
    }
}

/// Render one shape: decompose its geometry, resolve its fill, emit
/// one fill command per sub-path, and report its untransformed box.
/// An invisible shape emits no command but still reports its box.
#[verifier::loop_isolation(false)]
pub fn draw(tree: &Defs, path: &Shape) -> (r: (Vec<Command>, Option<BBox>))
    requires
        tree.wf(),
        path.wf(),
    ensures
        cmd_views(r.0@) == spec_draw_cmds(*path, tree.entries@),
        r.1 == spec_draw_bbox(*path),
        match r.1 {
            Some(b) => b.wf(),
            None => true,
        },
{
    let mut is_square_cap = false;
    if let Some(st) = &path.stroke {
        is_square_cap = match st.linecap {
            LineCap::Square => true,
            _ => false,
        };
    }

    let paths = draw_path(&path.segments, is_square_cap);
    let bbox = path_bbox(&path.segments);

    let style_bbox = match bbox {
        BBox::Empty => BBox::Rect { x0: 0, y0: 0, x1: SCALE, y1: SCALE },
        b => b,
    };
    let bbox_opt = match bbox {
        BBox::Empty => None,
        b => Some(b),
    };

    if !path.visible {
        let empty: Vec<Command> = Vec::new();
        proof {
            assert(cmd_views(empty@) =~= spec_draw_cmds(*path, tree.entries@));
        }
        return (empty, bbox_opt);
    }

    let mut cmds: Vec<Command> = Vec::new();
    if let Some(f) = &path.fill {
        let ghost bspec = spec_brush(tree.entries@, *f, spec_style_bbox(path.segments@)).0;
        let (first_brush, diag) = brush(tree, f, style_bbox);
        let _ = first_brush;
        let rl = rule(f);
        if let Some(d) = diag {
            cmds.push(Command::Report(d));
        }
        proof {
            assert(cmd_views(cmds@) =~= spec_report(
                spec_brush(tree.entries@, *f, spec_style_bbox(path.segments@)).1,
            ));
        }
        let ghost dpart = cmd_views(cmds@);
        let ghost subs = views_of(paths@);
        let n = paths.len();
        let mut i: usize = 0;
        while i < n
            invariant
                i <= n,
                cmd_views(cmds@) == dpart + spec_fill_cmds(subs.take(i as int), bspec, f.rule),
            decreases n - i,
        {
            let sub = create_subpath(&paths[i], 0, paths[i].len());
            let (b, _) = brush(tree, f, style_bbox);
            let ghost prior = cmd_views(cmds@);
            cmds.push(Command::Fill { path: sub, brush: b, rule: rl });
            proof {
                assert(sub@ =~= paths@[i as int]@);
                assert(cmd_views(cmds@) =~= prior.push(
                    CommandV::Fill { path: subs[i as int], brush: bspec, rule: f.rule },
                ));
                assert(cmd_views(cmds@) =~= dpart + spec_fill_cmds(
                    subs.take(i as int + 1),
                    bspec,
                    f.rule,
                ));
            }
            i = i + 1;
        }
        proof {
            assert(subs.take(n as int) =~= subs);
        }
    }

    if path.stroke.is_some() {
        cmds.push(Command::Report(Diagnostic::UnsupportedStroke));
    }
    proof {
        assert(cmd_views(cmds@) =~= spec_draw_cmds(*path, tree.entries@));
    }
    (cmds, bbox_opt)
}

/// The commands a node child_boxutes: a container renders its children;
/// a shape renders itself.
pub open spec fn spec_render_node(node: Node, entries: Seq<DefEntry>) -> Seq<CommandV>
    decreases node,
{
    match node {
        Node::Group(g) => spec_render_children(g.children@, entries),
        Node::Shape(s) => spec_draw_cmds(s, entries),
    }
}

/// The commands a child list child_boxutes, in document order: each
/// child is bracketed by a save and a restore, with its local
/// transform applied inside the bracket, so parent state is restored
/// on every path.
pub open spec fn spec_render_children(children: Seq<Node>, entries: Seq<DefEntry>) -> Seq<
    CommandV,
>
    decreases children,
{
    if children.len() == 0 {
        Seq::empty()
    } else {
        seq![CommandV::PushState, CommandV::ApplyTransform(children[0].spec_transform())]
            + spec_render_node(children[0], entries) + seq![CommandV::PopState]
            + spec_render_children(children.drop_first(), entries)
    }
}

/// The box a node reports upward, in its own coordinate space.
pub open spec fn spec_node_bbox(node: Node) -> Option<BBox>
    decreases node,
{
    match node {
        Node::Group(g) => Some(spec_children_bbox(g.children@)),
        Node::Shape(s) => spec_draw_bbox(s),
    }
}

/// The accumulated box of a child list: each child's box, mapped into
/// the parent space by the child's local transform, folded together.
/// Accumulation order cannot matter: union is commutative and
/// associative.
pub open spec fn spec_children_bbox(children: Seq<Node>) -> BBox
    decreases children,
{
    if children.len() == 0 {
        BBox::Empty
    } else {
        let child = children[0];
        let child_box = match spec_node_bbox(child) {
            Some(b) => spec_transform_bbox(b, child.spec_transform()),
            None => BBox::Empty,
        };
        spec_union(child_box, spec_children_bbox(children.drop_first()))
    }
}

/// Render one node: a container through [`render_group`], a shape
/// through [`draw`].
pub fn render_node(node: &Node, tree: &Defs) -> (r: (Vec<Command>, Option<BBox>))
    requires
        node.wf(),
        tree.wf(),
    ensures
        cmd_views(r.0@) == spec_render_node(*node, tree.entries@),
        r.1 == spec_node_bbox(*node),
        match r.1 {
            Some(b) => b.wf(),
            None => true,
        },
    decreases *node,
{
    match node {
        Node::Group(g) => {
            let (cmds, b) = render_group(g, tree);
            (cmds, Some(b))
        },
        Node::Shape(s) => draw(tree, s),
    }
}

/// Render a container's children in document order, which is paint
/// order: later children draw on top. Each child's surface state is
/// saved and restored around it, and its box, mapped by its local
/// transform, expands the running group box.
#[verifier::loop_isolation(false)]
pub fn render_group(parent: &Group, tree: &Defs) -> (r: (Vec<Command>, BBox))
    requires
        parent.transform.wf(),
        forall|i: int|
            0 <= i < parent.children@.len() ==> (#[trigger] parent.children@[i]).wf(),
        tree.wf(),
    ensures
        cmd_views(r.0@) == spec_render_children(parent.children@, tree.entries@),
        r.1 == spec_children_bbox(parent.children@),
        r.1.wf(),
    decreases parent.children@,
{
    let mut g_bbox = BBox::new_bbox();
    let mut cmds: Vec<Command> = Vec::new();
    let n = parent.children.len();
    let mut i: usize = 0;
    proof {
        assert(parent.children@.skip(0) =~= parent.children@);
        assert(cmd_views(cmds@) =~= Seq::<CommandV>::empty());
    }
    while i < n
        invariant
            i <= n,
            n == parent.children@.len(),
            g_bbox.wf(),
            spec_children_bbox(parent.children@) == spec_union(
                g_bbox,
                spec_children_bbox(parent.children@.skip(i as int)),
            ),
            cmd_views(cmds@) + spec_render_children(
                parent.children@.skip(i as int),
                tree.entries@,
            ) == spec_render_children(parent.children@, tree.entries@),
        decreases n - i,
    {
        let child = &parent.children[i];
        let ghost rest = parent.children@.skip(i as int);
        proof {
            assert(rest[0] == parent.children@[i as int]);
            assert(rest.drop_first() =~= parent.children@.skip(i as int + 1));
        }
        let ghost prior = cmd_views(cmds@);
        cmds.push(Command::PushState);
        cmds.push(Command::ApplyTransform(child.transform()));
        let (mut ccmds, cbbox) = render_node(child, tree);
        let ghost ccmds_v = cmd_views(ccmds@);
        cmds.append(&mut ccmds);
        cmds.push(Command::PopState);
        proof {
            assert(cmd_views(cmds@) =~= prior
                + seq![
                CommandV::PushState,
                CommandV::ApplyTransform(parent.children@[i as int].spec_transform()),
            ] + ccmds_v + seq![CommandV::PopState]);
            assert(cmd_views(cmds@) + spec_render_children(
                parent.children@.skip(i as int + 1),
                tree.entries@,
            ) =~= prior + spec_render_children(rest, tree.entries@));
        }
        let next_bbox = match cbbox {
            Some(b) => {
                let tb = b.transform(&child.transform());
                g_bbox.expand(&tb)
            },
            None => g_bbox.expand(&BBox::Empty),
        };
        proof {
            let child_box = match spec_node_bbox(parent.children@[i as int]) {
                Some(b) => spec_transform_bbox(
                    b,
                    parent.children@[i as int].spec_transform(),
                ),
                None => BBox::Empty,
            };
            lemma_union_assoc(
                g_bbox,
                child_box,
                spec_children_bbox(parent.children@.skip(i as int + 1)),
            );
        }
        g_bbox = next_bbox;
        i = i + 1;
    }
    proof {
        assert(parent.children@.skip(n as int).len() == 0);
        assert(cmd_views(cmds@) + Seq::<CommandV>::empty() =~= cmd_views(cmds@));
    }
    (cmds, g_bbox)
}


/// Visibility suppresses pixels, not geometry: a shape marked not
/// visible emits no command at all, yet reports exactly the box its
/// visible twin reports, so it still takes part in its group's box.
pub proof fn lemma_visibility(shape: Shape, entries: Seq<DefEntry>)
    ensures
        spec_draw_cmds(Shape { visible: false, ..shape }, entries) == Seq::<CommandV>::empty(),
        spec_draw_bbox(Shape { visible: false, ..shape }) == spec_draw_bbox(shape),
{
}

/// The clear command a background setting adds before the scene.
pub open spec fn spec_clear(background: Option<Color>) -> Seq<CommandV> {
    match background {
        Some(c) => seq![CommandV::Clear(spec_color_rgba(c, 0xff))],
        None => Seq::empty(),
    }
}

/// Commands for rendering one node onto an existing surface: the
/// viewport transform is applied, then the node renders inside a
/// save/restore bracket carrying its own transform.
pub fn render_node_to_canvas(node: &Node, viewport: &Transform, tree: &Defs) -> (r: (
    Vec<Command>,
    Option<BBox>,
))
    requires
        node.wf(),
        tree.wf(),
    ensures
        cmd_views(r.0@) == seq![
            CommandV::ApplyTransform(*viewport),
            CommandV::PushState,
            CommandV::ApplyTransform(node.spec_transform()),
        ] + spec_render_node(*node, tree.entries@) + seq![CommandV::PopState],
        r.1 == spec_node_bbox(*node),
{
    let mut cmds: Vec<Command> = Vec::new();
    cmds.push(Command::ApplyTransform(*viewport));
    cmds.push(Command::PushState);
    cmds.push(Command::ApplyTransform(node.transform()));
    let ghost head = cmd_views(cmds@);
    let (mut ncmds, bbox) = render_node(node, tree);
    let ghost body = cmd_views(ncmds@);
    cmds.append(&mut ncmds);
    cmds.push(Command::PopState);
    proof {
        assert(head =~= seq![
            CommandV::ApplyTransform(*viewport),
            CommandV::PushState,
            CommandV::ApplyTransform(node.spec_transform()),
        ]);
        assert(cmd_views(cmds@) =~= head + body + seq![CommandV::PopState]);
    }
    (cmds, bbox)
}

/// Commands for rendering a whole scene tree onto an existing
/// surface.
pub fn render_to_canvas(root: &Node, viewport: &Transform, tree: &Defs) -> (r: (
    Vec<Command>,
    Option<BBox>,
))
    requires
        root.wf(),
        tree.wf(),
    ensures
        cmd_views(r.0@) == seq![
            CommandV::ApplyTransform(*viewport),
            CommandV::PushState,
            CommandV::ApplyTransform(root.spec_transform()),
        ] + spec_render_node(*root, tree.entries@) + seq![CommandV::PopState],
        r.1 == spec_node_bbox(*root),
{
    render_node_to_canvas(root, viewport, tree)
}

/// Commands for a full document render: clear to the background color
/// if one is set, then render the tree under the viewport transform.
pub fn render_document(background: Option<Color>, viewport: &Transform, root: &Node, tree: &Defs)
    -> (r: (Vec<Command>, Option<BBox>))
    requires
        root.wf(),
        tree.wf(),
    ensures
        cmd_views(r.0@) == spec_clear(background) + (seq![
            CommandV::ApplyTransform(*viewport),
            CommandV::PushState,
            CommandV::ApplyTransform(root.spec_transform()),
        ] + spec_render_node(*root, tree.entries@) + seq![CommandV::PopState]),
        r.1 == spec_node_bbox(*root),
{
    let mut cmds: Vec<Command> = Vec::new();
    if let Some(c) = background {
        cmds.push(Command::Clear(color_to_rgba(c, 0xff)));
    }
    let ghost head = cmd_views(cmds@);
    proof {
        assert(head =~= spec_clear(background));
    }
    let (mut scene_cmds, bbox) = render_to_canvas(root, viewport, tree);
    let ghost body = cmd_views(scene_cmds@);
    cmds.append(&mut scene_cmds);
    proof {
        assert(cmd_views(cmds@) =~= head + body);
    }
    (cmds, bbox)
}


/// Whether a command list respects stack discipline from depth `d`
/// on: no restore ever arrives with nothing left to restore.
pub open spec fn spec_depth_ok(q: Seq<CommandV>, d: int) -> bool
    decreases q.len(),
{
    if q.len() == 0 {
        true
    } else {
        match q[0] {
            CommandV::PushState => spec_depth_ok(q.drop_first(), d + 1),
            CommandV::PopState => d > 0 && spec_depth_ok(q.drop_first(), d - 1),
            _ => spec_depth_ok(q.drop_first(), d),
        }
    }
}

/// The save depth after a command list runs from depth `d`.
pub open spec fn spec_end_depth(q: Seq<CommandV>, d: int) -> int
    decreases q.len(),
{
    if q.len() == 0 {
        d
    } else {
        match q[0] {
            CommandV::PushState => spec_end_depth(q.drop_first(), d + 1),
            CommandV::PopState => spec_end_depth(q.drop_first(), d - 1),
            _ => spec_end_depth(q.drop_first(), d),
        }
    }
}

/// Depth tracking composes over concatenation.
proof fn lemma_depth_append(a: Seq<CommandV>, b: Seq<CommandV>, d: int)
    ensures
        spec_end_depth(a + b, d) == spec_end_depth(b, spec_end_depth(a, d)),
        spec_depth_ok(a + b, d) == (spec_depth_ok(a, d) && spec_depth_ok(
            b,
            spec_end_depth(a, d),
        )),
    decreases a.len(),
{
    if a.len() == 0 {
        assert(a + b =~= b);
    } else {
        assert((a + b).drop_first() =~= a.drop_first() + b);
        match a[0] {
            CommandV::PushState => lemma_depth_append(a.drop_first(), b, d + 1),
            CommandV::PopState => lemma_depth_append(a.drop_first(), b, d - 1),
            _ => lemma_depth_append(a.drop_first(), b, d),
        }
    }
}

/// A list without saves or restores leaves any depth untouched.
proof fn lemma_depth_flat(q: Seq<CommandV>, d: int)
    requires
        forall|k: int|
            0 <= k < q.len() ==> !((#[trigger] q[k]) is PushState) && !(q[k] is PopState),
    ensures
        spec_depth_ok(q, d),
        spec_end_depth(q, d) == d,
    decreases q.len(),
{
    if q.len() > 0 {
        assert(!(q[0] is PushState) && !(q[0] is PopState));
        assert(forall|k: int|
            0 <= k < q.drop_first().len() ==> #[trigger] q.drop_first()[k] == q[k + 1]);
        lemma_depth_flat(q.drop_first(), d);
    }
}

/// A shape's own commands never touch the save stack.
proof fn lemma_draw_cmds_flat(shape: Shape, entries: Seq<DefEntry>)
    ensures
        forall|k: int|
            0 <= k < spec_draw_cmds(shape, entries).len() ==> !((#[trigger] spec_draw_cmds(
                shape,
                entries,
            )[k]) is PushState) && !(spec_draw_cmds(shape, entries)[k] is PopState),
{
}

/// Save/restore stack discipline: the command list of any node render
/// is balanced. From any starting depth, no restore arrives without a
/// matching save in the list or below it, and the depth at the end is
/// the depth at the start — so an early-returning branch can never
/// leak a save into a sibling's rendering.
pub proof fn lemma_render_node_balanced(node: Node, entries: Seq<DefEntry>, d: int)
    requires
        d >= 0,
    ensures
        spec_depth_ok(spec_render_node(node, entries), d),
        spec_end_depth(spec_render_node(node, entries), d) == d,
    decreases node,
{
    match node {
        Node::Group(g) => {
            lemma_render_children_balanced(g.children@, entries, d);
        },
        Node::Shape(s) => {
            lemma_draw_cmds_flat(s, entries);
            lemma_depth_flat(spec_draw_cmds(s, entries), d);
        },
    }
}

/// The same discipline for a child list: each child is bracketed by
/// its own save and restore.
pub proof fn lemma_render_children_balanced(children: Seq<Node>, entries: Seq<DefEntry>, d: int)
    requires
        d >= 0,
    ensures
        spec_depth_ok(spec_render_children(children, entries), d),
        spec_end_depth(spec_render_children(children, entries), d) == d,
    decreases children,
{
    if children.len() > 0 {
        let head = seq![
            CommandV::PushState,
            CommandV::ApplyTransform(children[0].spec_transform()),
        ];
        let body = spec_render_node(children[0], entries);
        let foot = seq![CommandV::PopState];
        let rest = spec_render_children(children.drop_first(), entries);
        lemma_render_node_balanced(children[0], entries, d + 1);
        lemma_render_children_balanced(children.drop_first(), entries, d);
        reveal_with_fuel(spec_end_depth, 3);
        reveal_with_fuel(spec_depth_ok, 3);
        assert(head.drop_first() =~= seq![
            CommandV::ApplyTransform(children[0].spec_transform()),
        ]);
        assert(head.drop_first().drop_first() =~= Seq::<CommandV>::empty());
        assert(foot.drop_first() =~= Seq::<CommandV>::empty());
        assert(spec_end_depth(head, d) == d + 1);
        assert(spec_depth_ok(head, d));
        assert(spec_end_depth(foot, d + 1) == d);
        assert(spec_depth_ok(foot, d + 1));
        lemma_depth_append(head, body, d);
        lemma_depth_append(head + body, foot, d);
        lemma_depth_append(head + body + foot, rest, d);
        assert(spec_render_children(children, entries) =~= head + body + foot + rest);
    }
}

} // verus!
