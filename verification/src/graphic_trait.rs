//! Glyphs and colors of floors and furniture.
use crate::color::{dim_by_tenths, dim_spec, RatColor};
use crate::typedefs::GraphicTriple;
use crate::typeenums::{BlockingFurniture, Floor, Furniture, WalkableFurniture};
use vstd::prelude::*;

verus! {

/// Game elements that can be rendered as a glyph with foreground and background colors.
pub trait GraphicElement {
    /// The characters of the element's glyph.
    spec fn symbol_view(&self) -> Seq<char>;

    /// The element's foreground color.
    spec fn fg_view(&self) -> RatColor;

    /// The element's background color.
    spec fn bg_view(&self) -> RatColor;

    fn symbol(&self) -> (s: String)
        ensures
            s@ == self.symbol_view(),
    ;

    fn fg_color(&self) -> (c: RatColor)
        ensures
            c == self.fg_view(),
    ;

    fn bg_color(&self) -> (c: RatColor)
        ensures
            c == self.bg_view(),
    ;

    fn to_graphic_triple(&self) -> (t: GraphicTriple)
        ensures
            t.0@ == self.symbol_view(),
            t.1 == self.fg_view(),
            t.2 == self.bg_view(),
    {
        (self.symbol(), self.fg_color(), self.bg_color())
    }
}

impl GraphicElement for Floor {
    open spec fn symbol_view(&self) -> Seq<char> {
        match self {
            Floor::GrassDeep => "\""@,
            Floor::Grass => "\""@,
            Floor::GrassLight => "'"@,
            Floor::Moss => ","@,
            Floor::LeafLitter => "."@,
        }
    }

    open spec fn fg_view(&self) -> RatColor {
        match self {
            Floor::GrassDeep => RatColor::Rgb(12, 84, 18),
            Floor::Grass => RatColor::Rgb(19, 109, 21),
            Floor::GrassLight => RatColor::Rgb(96, 150, 60),
            Floor::Moss => RatColor::Rgb(70, 110, 50),
            Floor::LeafLitter => RatColor::Rgb(107, 84, 40),
        }
    }

    /// The background of a floor is its foreground dimmed to eight tenths.
    open spec fn bg_view(&self) -> RatColor {
        dim_spec(self.fg_view(), 8)
    }

    fn symbol(&self) -> (s: String) {
        match self {
            Floor::GrassDeep => "\"".to_owned(),
            Floor::Grass => "\"".to_owned(),
            Floor::GrassLight => "'".to_owned(),
            Floor::Moss => ",".to_owned(),
            Floor::LeafLitter => ".".to_owned(),
        }
    }

    fn fg_color(&self) -> (c: RatColor) {
        match self {
            Floor::GrassDeep => RatColor::Rgb(12, 84, 18),
            Floor::Grass => RatColor::Rgb(19, 109, 21),
            Floor::GrassLight => RatColor::Rgb(96, 150, 60),
            Floor::Moss => RatColor::Rgb(70, 110, 50),
            Floor::LeafLitter => RatColor::Rgb(107, 84, 40),
        }
    }

    fn bg_color(&self) -> (c: RatColor) {
        dim_by_tenths(self.fg_color(), 8)
    }
}

impl GraphicElement for Furniture {
    open spec fn symbol_view(&self) -> Seq<char> {
        match self {
            Furniture::Blocking(BlockingFurniture::Wall) => "#"@,
            Furniture::Blocking(_) => "\u{2663}"@,
            Furniture::Walkable(WalkableFurniture::Shrub) => "%"@,
            Furniture::Walkable(WalkableFurniture::Fern) => "&"@,
            Furniture::Walkable(WalkableFurniture::TallGrass) => ";"@,
            Furniture::Walkable(WalkableFurniture::Wildflower) => "*"@,
        }
    }

    open spec fn fg_view(&self) -> RatColor {
        match self {
            Furniture::Blocking(BlockingFurniture::Wall) => RatColor::Rgb(139, 105, 20),
            Furniture::Blocking(_) => RatColor::Rgb(205, 170, 125),
            Furniture::Walkable(WalkableFurniture::Shrub) => RatColor::Rgb(60, 120, 40),
            Furniture::Walkable(WalkableFurniture::Fern) => RatColor::Rgb(40, 140, 60),
            Furniture::Walkable(WalkableFurniture::TallGrass) => RatColor::Rgb(150, 170, 70),
            Furniture::Walkable(WalkableFurniture::Wildflower) => RatColor::Rgb(220, 120, 180),
        }
    }

    /// The background of furniture is its foreground dimmed to eight tenths.
    open spec fn bg_view(&self) -> RatColor {
        dim_spec(self.fg_view(), 8)
    }

    fn symbol(&self) -> (s: String) {
        match self {
            Furniture::Blocking(BlockingFurniture::Wall) => "#".to_owned(),
            Furniture::Blocking(_) => "\u{2663}".to_owned(),
            Furniture::Walkable(WalkableFurniture::Shrub) => "%".to_owned(),
            Furniture::Walkable(WalkableFurniture::Fern) => "&".to_owned(),
            Furniture::Walkable(WalkableFurniture::TallGrass) => ";".to_owned(),
            Furniture::Walkable(WalkableFurniture::Wildflower) => "*".to_owned(),
        }
    }

    fn fg_color(&self) -> (c: RatColor) {
        match self {
            Furniture::Blocking(BlockingFurniture::Wall) => RatColor::Rgb(139, 105, 20),
            Furniture::Blocking(_) => RatColor::Rgb(205, 170, 125),
            Furniture::Walkable(WalkableFurniture::Shrub) => RatColor::Rgb(60, 120, 40),
            Furniture::Walkable(WalkableFurniture::Fern) => RatColor::Rgb(40, 140, 60),
            Furniture::Walkable(WalkableFurniture::TallGrass) => RatColor::Rgb(150, 170, 70),
            Furniture::Walkable(WalkableFurniture::Wildflower) => RatColor::Rgb(220, 120, 180),
        }
    }

    fn bg_color(&self) -> (c: RatColor) {
        dim_by_tenths(self.fg_color(), 8)
    }
}

} // verus!
