//! Map cells and how they are drawn.
use crate::color::{dim_by_tenths, dim_spec, RatColor};
use crate::graphic_trait::GraphicElement;
use crate::typedefs::{blank_view, GraphicTriple, MyPoint};
use crate::typeenums::{Floor, Furniture};
use vstd::prelude::*;

verus! {

/// A single cell in the game map grid.
#[derive(Clone, Copy, Debug)]
pub struct Voxel {
    pub floor: Option<Floor>,
    pub furniture: Option<Furniture>,
    pub voxel_pos: MyPoint,
}

/// The glyph of a floor, or a blank when there is none.
pub open spec fn floor_glyph(floor: Option<Floor>) -> (Seq<char>, RatColor, RatColor) {
    match floor {
        Some(fl) => (fl.symbol_view(), fl.fg_view(), fl.bg_view()),
        None => blank_view(),
    }
}

/// How a voxel is drawn: the furniture's glyph and color over the floor's background, or
/// the floor alone; when not visible, the foreground is dimmed to three tenths and the
/// background to five tenths.
pub open spec fn voxel_glyph(v: Voxel, visible: bool) -> (Seq<char>, RatColor, RatColor) {
    let floor = floor_glyph(v.floor);
    let layered = match v.furniture {
        Some(furn) => (furn.symbol_view(), furn.fg_view(), floor.2),
        None => floor,
    };
    if visible {
        layered
    } else {
        (layered.0, dim_spec(layered.1, 3), dim_spec(layered.2, 5))
    }
}

impl Voxel {
    /// Converts this voxel to a glyph. Layers: floor, then furniture. Unseen tiles are dimmed.
    pub fn to_graphic(&self, visible: bool) -> (t: GraphicTriple)
        ensures
            (t.0@, t.1, t.2) == voxel_glyph(*self, visible),
    {
        let floor: GraphicTriple = match &self.floor {
            Some(fl) => fl.to_graphic_triple(),
            None => (" ".to_owned(), RatColor::Black, RatColor::Black),
        };
        let plus_furn: GraphicTriple = match &self.furniture {
            Some(furn) => (furn.symbol(), furn.fg_color(), floor.2),
            None => floor,
        };
        if visible {
            plus_furn
        } else {
            let (symbol, fg, bg) = plus_furn;
            (symbol, dim_by_tenths(fg, 3), dim_by_tenths(bg, 5))
        }
    }
}

} // verus!
