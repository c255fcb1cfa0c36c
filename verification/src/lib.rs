//! A scene renderer that turns a tree of shapes, groups and paint
//! definitions into a flat list of drawing-surface commands.
//!
//! The engine walks the scene tree, composes transforms down the tree,
//! splits path geometry into independent sub-paths, resolves paint
//! references (inline colors or links into a definitions table) into
//! concrete brushes, and accumulates axis-aligned bounding boxes bottom-up.
//! The drawing surface itself (rasterization, pixel buffers) is an external
//! collaborator: the engine emits commands for it instead of calling it.
//!
//! All coordinates are fixed-point: one user unit is `geom::SCALE` coordinate
//! units. Opacities and gradient stop offsets are stored in thousandths.

use vstd::prelude::*;

pub mod geom;
pub mod scene;
pub mod path;
pub mod gradient;
pub mod fill;
pub mod render;

verus! {

/// Marker for this rendering backend.
#[derive(Clone, Copy, Debug)]
pub struct Backend;

/// A finished raster image: raw pixels in row-major RGBA order with
/// premultiplied alpha, four bytes per pixel.
#[derive(Clone, Debug)]
pub struct Image {
    pub pixels: Vec<u8>,
    pub width: u32,
    pub height: u32,
}

impl Image {
    /// The pixel buffer holds exactly four bytes per pixel.
    pub open spec fn wf(self) -> bool {
        self.pixels@.len() == 4 * self.width * self.height
    }

    /// Wrap a raw pixel buffer; refuse one whose length does not
    /// match the given size.
    pub fn new(pixels: Vec<u8>, width: u32, height: u32) -> (r: Option<Image>)
        ensures
            match r {
                Some(img) => {
                    &&& img.wf()
                    &&& img.pixels@ == pixels@
                    &&& img.width == width
                    &&& img.height == height
                },
                None => pixels@.len() != 4 * width * height,
            },
    {
        proof {
            crate::geom::lemma_mul_bound(width as int, height as int, 0xFFFF_FFFF, 0xFFFF_FFFF);
        }
        let area: u64 = (width as u64) * (height as u64);
        let expect: u128 = 4u128 * (area as u128);
        proof {
            assert(4 * (width * height) == 4 * width * height) by (nonlinear_arith);
        }
        if (pixels.len() as u128) == expect {
            Some(Image { pixels, width, height })
        } else {
            None
        }
    }
}

} // verus!
