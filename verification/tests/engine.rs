//! End-to-end exercises of the scene renderer on concrete scenes.

use scene_render::fill::Diagnostic;
use scene_render::geom::{BBox, SCALE, Transform};
use scene_render::gradient::{color_to_rgba, stop_alpha, Brush, GradientStop};
use scene_render::path::{draw_path, get_subpath};
use scene_render::render::{draw, render_document, render_group, Command};
use scene_render::scene::{
    BaseGradient, Color, DefEntry, Defs, Fill, FillRule, Group, LinearGradient, Node, Paint,
    PaintDef, Segment, Shape, Stop,
};
use scene_render::Image;

fn mv(x: i64, y: i64) -> Segment {
    Segment::MoveTo { x, y }
}

fn ln(x: i64, y: i64) -> Segment {
    Segment::LineTo { x, y }
}

fn no_defs() -> Defs {
    Defs { entries: Vec::new() }
}

fn plain_shape(segments: Vec<Segment>, fill: Option<Fill>, visible: bool) -> Shape {
    Shape {
        transform: identity(),
        visible,
        fill,
        stroke: None,
        segments,
    }
}

fn identity() -> Transform {
    Transform {
        a: SCALE,
        b: 0,
        c: 0,
        d: SCALE,
        e: 0,
        f: 0,
    }
}

#[test]
fn subpaths_split_at_moves_and_closes() {
    let segs = vec![
        mv(0, 0),
        ln(10, 0),
        Segment::ClosePath,
        mv(20, 20),
        ln(30, 20),
        mv(40, 40),
    ];
    let parts = draw_path(&segs, false);
    assert_eq!(parts.len(), 3);
    assert_eq!(parts[0], vec![mv(0, 0), ln(10, 0), Segment::ClosePath]);
    assert_eq!(parts[1], vec![mv(20, 20), ln(30, 20)]);
    assert_eq!(parts[2], vec![mv(40, 40)]);
    // Concatenating the sub-paths reproduces the original sequence.
    let mut glued: Vec<Segment> = Vec::new();
    for p in &parts {
        glued.extend_from_slice(p);
    }
    assert_eq!(glued, segs);
    // Every sub-path starts with a MoveTo here.
    for p in &parts {
        assert!(matches!(p[0], Segment::MoveTo { .. }));
    }
}

#[test]
fn subpath_scan_stops_after_close() {
    let segs = vec![mv(0, 0), ln(1, 1), Segment::ClosePath, mv(2, 2)];
    assert_eq!(get_subpath(&segs, 0), 3);
    assert_eq!(get_subpath(&segs, 3), 4);
    assert_eq!(get_subpath(&segs, 4), 4);
}

#[test]
fn empty_segments_give_no_subpaths() {
    let parts = draw_path(&Vec::new(), true);
    assert_eq!(parts.len(), 0);
}

#[test]
fn stop_alpha_multiplies_and_rounds() {
    // Half stop opacity under half fill opacity: a quarter of 255,
    // rounded, is 64. Not 128, not 255.
    assert_eq!(stop_alpha(500, 500), 64);
    assert_eq!(stop_alpha(1000, 1000), 255);
    assert_eq!(stop_alpha(0, 1000), 0);
    assert_eq!(stop_alpha(1000, 500), 128);
}

#[test]
fn rgba_packs_channels() {
    let c = Color {
        red: 0x12,
        green: 0x34,
        blue: 0x56,
    };
    assert_eq!(color_to_rgba(c, 0x78), 0x1234_5678);
}

#[test]
fn compose_translate_then_scale() {
    // Child translates by (10, 20) user units, parent scales by 2:
    // the child's origin must land at (20, 40) user units.
    let parent = Transform {
        a: 2 * SCALE,
        b: 0,
        c: 0,
        d: 2 * SCALE,
        e: 0,
        f: 0,
    };
    let child = Transform {
        a: SCALE,
        b: 0,
        c: 0,
        d: SCALE,
        e: 10 * SCALE,
        f: 20 * SCALE,
    };
    let both = parent.compose(&child);
    assert_eq!(both.apply_x(0, 0), 20 * SCALE);
    assert_eq!(both.apply_y(0, 0), 40 * SCALE);
    // The other order translates the already-scaled origin: (10, 20).
    let other = child.compose(&parent);
    assert_eq!(other.apply_x(0, 0), 10 * SCALE);
    assert_eq!(other.apply_y(0, 0), 20 * SCALE);
}

#[test]
fn bbox_union_any_order() {
    let a = BBox::Rect {
        x0: 0,
        y0: 0,
        x1: 5,
        y1: 5,
    };
    let b = BBox::Rect {
        x0: -3,
        y0: 2,
        x1: 4,
        y1: 9,
    };
    let c = BBox::Rect {
        x0: 1,
        y0: -8,
        x1: 2,
        y1: 0,
    };
    let left = a.expand(&b).expand(&c);
    let right = a.expand(&c.expand(&b));
    assert_eq!(left, right);
    assert_eq!(
        left,
        BBox::Rect {
            x0: -3,
            y0: -8,
            x1: 5,
            y1: 9,
        }
    );
    assert_eq!(BBox::Empty.expand(&a), a);
}

#[test]
fn dangling_link_renders_transparent_and_reports() {
    let fill = Fill {
        paint: Paint::Link(7),
        opacity: 1000,
        rule: FillRule::NonZero,
    };
    let shape = plain_shape(vec![mv(0, 0), ln(10, 0), ln(10, 10)], Some(fill), true);
    let (cmds, bbox) = draw(&no_defs(), &shape);
    assert_eq!(cmds.len(), 2);
    assert_eq!(cmds[0], Command::Report(Diagnostic::DanglingPaintLink(7)));
    match &cmds[1] {
        Command::Fill { brush, .. } => assert_eq!(*brush, Brush::Solid(0)),
        other => panic!("expected a fill, got {:?}", other),
    }
    assert!(bbox.is_some());
}

#[test]
fn dangling_link_leaves_siblings_alone() {
    let bad = plain_shape(
        vec![mv(0, 0), ln(10, 0)],
        Some(Fill {
            paint: Paint::Link(9),
            opacity: 1000,
            rule: FillRule::NonZero,
        }),
        true,
    );
    let good = plain_shape(
        vec![mv(0, 0), ln(4, 4)],
        Some(Fill {
            paint: Paint::Color(Color {
                red: 255,
                green: 0,
                blue: 0,
            }),
            opacity: 1000,
            rule: FillRule::NonZero,
        }),
        true,
    );
    let group = Group {
        transform: identity(),
        children: vec![Node::Shape(bad), Node::Shape(good)],
    };
    let (cmds, _) = render_group(&group, &no_defs());
    // The sibling still fills with its own opaque red.
    let red = cmds.iter().any(|c| match c {
        Command::Fill { brush, .. } => *brush == Brush::Solid(0xFF00_00FF),
        _ => false,
    });
    assert!(red);
}

#[test]
fn invisible_shape_contributes_bbox_but_no_commands() {
    let hidden = plain_shape(
        vec![mv(1, 2), ln(5, 6)],
        Some(Fill {
            paint: Paint::Color(Color {
                red: 1,
                green: 2,
                blue: 3,
            }),
            opacity: 1000,
            rule: FillRule::EvenOdd,
        }),
        false,
    );
    let group = Group {
        transform: identity(),
        children: vec![Node::Shape(hidden)],
    };
    let (cmds, bbox) = render_group(&group, &no_defs());
    // Only the save/transform/restore bracket, no fill at all.
    assert_eq!(cmds.len(), 3);
    assert_eq!(cmds[0], Command::PushState);
    assert!(matches!(cmds[1], Command::ApplyTransform(_)));
    assert_eq!(cmds[2], Command::PopState);
    assert_eq!(
        bbox,
        BBox::Rect {
            x0: 1,
            y0: 2,
            x1: 5,
            y1: 6,
        }
    );
}

#[test]
fn unsupported_kind_and_stroke_report() {
    let defs = Defs {
        entries: vec![DefEntry {
            id: 3,
            def: PaintDef::Unsupported,
        }],
    };
    let mut shape = plain_shape(
        vec![mv(0, 0), ln(2, 2)],
        Some(Fill {
            paint: Paint::Link(3),
            opacity: 1000,
            rule: FillRule::NonZero,
        }),
        true,
    );
    shape.stroke = Some(scene_render::scene::Stroke {
        linecap: scene_render::scene::LineCap::Square,
    });
    let (cmds, _) = draw(&defs, &shape);
    assert_eq!(cmds[0], Command::Report(Diagnostic::UnsupportedPaintKind(3)));
    assert_eq!(
        cmds[cmds.len() - 1],
        Command::Report(Diagnostic::UnsupportedStroke)
    );
}

#[test]
fn gradient_document_end_to_end() {
    // One rectangle (4 line segments and a close) filled with a
    // two-stop linear gradient, white to black, across its width.
    let stops = vec![
        Stop {
            offset: 0,
            color: Color {
                red: 255,
                green: 255,
                blue: 255,
            },
            opacity: 1000,
        },
        Stop {
            offset: 1000,
            color: Color {
                red: 0,
                green: 0,
                blue: 0,
            },
            opacity: 1000,
        },
    ];
    let defs = Defs {
        entries: vec![DefEntry {
            id: 1,
            def: PaintDef::Linear(LinearGradient {
                x1: 0,
                y1: 0,
                x2: 100 * SCALE,
                y2: 0,
                base: BaseGradient { stops },
            }),
        }],
    };
    let rect = plain_shape(
        vec![
            mv(0, 0),
            ln(100 * SCALE, 0),
            ln(100 * SCALE, 50 * SCALE),
            ln(0, 50 * SCALE),
            Segment::ClosePath,
        ],
        Some(Fill {
            paint: Paint::Link(1),
            opacity: 1000,
            rule: FillRule::NonZero,
        }),
        true,
    );
    let root = Node::Group(Group {
        transform: identity(),
        children: vec![Node::Shape(rect)],
    });
    let white = Color {
        red: 255,
        green: 255,
        blue: 255,
    };
    let (cmds, bbox) = render_document(Some(white), &identity(), &root, &defs);
    // Clear, viewport transform, root bracket, child bracket with one
    // fill inside, and the closing restores.
    assert_eq!(cmds[0], Command::Clear(0xFFFF_FFFF));
    assert_eq!(cmds[1], Command::ApplyTransform(identity()));
    assert_eq!(cmds[2], Command::PushState);
    let fills: Vec<&Command> = cmds
        .iter()
        .filter(|c| matches!(c, Command::Fill { .. }))
        .collect();
    assert_eq!(fills.len(), 1);
    match fills[0] {
        Command::Fill { path, brush, rule } => {
            assert_eq!(path.len(), 5);
            assert_eq!(*rule, FillRule::NonZero);
            match brush {
                Brush::Linear(lb) => {
                    assert_eq!(lb.x1, 0);
                    assert_eq!(lb.x2, 100 * SCALE);
                    // The left edge is opaque white, the right edge
                    // opaque black.
                    assert_eq!(
                        lb.stops,
                        vec![
                            GradientStop {
                                pos: 0,
                                rgba: 0xFFFF_FFFF,
                            },
                            GradientStop {
                                pos: 1000,
                                rgba: 0x0000_00FF,
                            },
                        ]
                    );
                }
                other => panic!("expected a linear gradient, got {:?}", other),
            }
        }
        _ => unreachable!(),
    }
    // Pushes and pops balance.
    let pushes = cmds
        .iter()
        .filter(|c| matches!(c, Command::PushState))
        .count();
    let pops = cmds
        .iter()
        .filter(|c| matches!(c, Command::PopState))
        .count();
    assert_eq!(pushes, pops);
    assert_eq!(
        bbox,
        Some(BBox::Rect {
            x0: 0,
            y0: 0,
            x1: 100 * SCALE,
            y1: 50 * SCALE,
        })
    );
}

#[test]
fn gradient_stop_alpha_combines_opacities() {
    // A stop at half opacity under a fill at half opacity comes out
    // near a quarter of full alpha.
    let defs = Defs {
        entries: vec![DefEntry {
            id: 2,
            def: PaintDef::Linear(LinearGradient {
                x1: 0,
                y1: 0,
                x2: SCALE,
                y2: 0,
                base: BaseGradient {
                    stops: vec![Stop {
                        offset: 500,
                        color: Color {
                            red: 0,
                            green: 0,
                            blue: 0,
                        },
                        opacity: 500,
                    }],
                },
            }),
        }],
    };
    let shape = plain_shape(
        vec![mv(0, 0), ln(9, 9)],
        Some(Fill {
            paint: Paint::Link(2),
            opacity: 500,
            rule: FillRule::NonZero,
        }),
        true,
    );
    let (cmds, _) = draw(&defs, &shape);
    let brush = cmds
        .iter()
        .find_map(|c| match c {
            Command::Fill { brush, .. } => Some(brush),
            _ => None,
        })
        .unwrap();
    match brush {
        Brush::Linear(lb) => {
            assert_eq!(lb.stops.len(), 1);
            assert_eq!(lb.stops[0].rgba & 0xFF, 64);
        }
        other => panic!("expected a linear gradient, got {:?}", other),
    }
}

#[test]
fn image_checks_buffer_size() {
    let ok = Image::new(vec![0u8; 4 * 2 * 3], 2, 3);
    assert!(ok.is_some());
    let img = ok.unwrap();
    assert_eq!(img.width, 2);
    assert_eq!(img.height, 3);
    let bad = Image::new(vec![0u8; 10], 2, 3);
    assert!(bad.is_none());
}

#[test]
fn defs_lookup_takes_first_match() {
    let defs = Defs {
        entries: vec![
            DefEntry {
                id: 5,
                def: PaintDef::Unsupported,
            },
            DefEntry {
                id: 5,
                def: PaintDef::Linear(LinearGradient {
                    x1: 0,
                    y1: 0,
                    x2: 0,
                    y2: 0,
                    base: BaseGradient { stops: Vec::new() },
                }),
            },
        ],
    };
    assert_eq!(defs.find(5), Some(0));
    assert_eq!(defs.find(6), None);
}

#[test]
fn splitting_without_leading_move_loses_nothing() {
    // A stream that does not open with a MoveTo still splits into
    // runs whose concatenation is the original sequence.
    let segs = vec![ln(3, 3), ln(4, 4), Segment::ClosePath, mv(5, 5)];
    let parts = draw_path(&segs, false);
    let mut glued: Vec<Segment> = Vec::new();
    for p in &parts {
        glued.extend_from_slice(p);
    }
    assert_eq!(glued, segs);
    // Here the first sub-path opens with a LineTo, not a MoveTo.
    assert!(matches!(parts[0][0], Segment::LineTo { .. }));
}

#[test]
fn bbox_transforms_by_corners() {
    let b = BBox::Rect {
        x0: 0,
        y0: 0,
        x1: 10 * SCALE,
        y1: 4 * SCALE,
    };
    // Scale x by 2 and translate by (1, 1) user units.
    let t = Transform {
        a: 2 * SCALE,
        b: 0,
        c: 0,
        d: SCALE,
        e: SCALE,
        f: SCALE,
    };
    assert_eq!(
        b.transform(&t),
        BBox::Rect {
            x0: SCALE,
            y0: SCALE,
            x1: 21 * SCALE,
            y1: 5 * SCALE,
        }
    );
    assert_eq!(BBox::Empty.transform(&t), BBox::Empty);
}
