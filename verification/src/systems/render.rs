//! What the screen shows: entities drawn over the map, the list of what is in sight, and
//! where overlays sit.
use crate::color::RatColor;
use crate::grid_vec::GridVec;
use crate::point_set::PointSet;
use crate::systems::ai::roomy;
use crate::typedefs::{triple_view, GraphicTriple, RenderPacket};
use vstd::prelude::*;

verus! {

/// An entity as the screen draws it.
#[derive(Debug)]
pub struct EntityGlyph {
    pub pos: GridVec,
    pub symbol: String,
    pub fg: RatColor,
    pub bg: RatColor,
    pub name: Option<String>,
}

/// An entity in sight, for the side panel: symbol, colors and name.
#[derive(Debug)]
pub struct SeenEntity {
    pub symbol: String,
    pub fg: RatColor,
    pub bg: RatColor,
    pub name: String,
}

/// A glyph as plain values.
pub type GlyphView = (Seq<char>, RatColor, RatColor);

/// The glyphs of a render packet, row by row.
pub open spec fn packet_view(p: Seq<Vec<GraphicTriple>>) -> Seq<Seq<GlyphView>> {
    p.map(|_i: int, row: Vec<GraphicTriple>| row@.map(|_j: int, t: GraphicTriple| triple_view(t)))
}

/// Every row of the packet has at least `width` glyphs, and it has at least `height` rows.
pub open spec fn packet_covers(p: Seq<Seq<GlyphView>>, width: int, height: int) -> bool {
    &&& p.len() >= height
    &&& forall|y: int| 0 <= y < p.len() ==> #[trigger] p[y].len() >= width
}

/// The screen cell of world tile `pos` when the screen's bottom-left tile is `bottom_left`,
/// if it falls on a `width` by `height` screen.
pub open spec fn screen_cell(pos: GridVec, bottom_left: GridVec, width: int, height: int) -> Option<(int, int)> {
    let sx = pos.x - bottom_left.x;
    let sy = pos.y - bottom_left.y;
    if 0 <= sx < width && 0 <= sy < height {
        Some((sx, sy))
    } else {
        None
    }
}

/// An entity is drawn when it is on screen and in view (everything is in view without a
/// viewshed).
pub open spec fn drawn_at(e: (GridVec, GlyphView, Seq<char>), bottom_left: GridVec, width: int, height: int, visible: Option<Set<(int, int)>>) -> Option<(int, int)> {
    match screen_cell(e.0, bottom_left, width, height) {
        Some(c) => if (match visible {
            Some(v) => v.contains((e.0.x as int, e.0.y as int)),
            None => true,
        }) {
            Some(c)
        } else {
            None
        },
        None => None,
    }
}

/// The glyphs after drawing the entities in order: each drawn entity puts its symbol and
/// foreground on its cell and keeps the cell's background; and the list of the drawn ones
/// (symbol, colors and name) for the side panel.
pub open spec fn overlay_spec(
    p: Seq<Seq<GlyphView>>,
    bottom_left: GridVec,
    width: int,
    height: int,
    visible: Option<Set<(int, int)>>,
    ents: Seq<(GridVec, GlyphView, Seq<char>)>,
) -> (Seq<Seq<GlyphView>>, Seq<(GlyphView, Seq<char>)>)
    decreases ents.len(),
{
    if ents.len() == 0 {
        (p, Seq::empty())
    } else {
        let r = overlay_spec(p, bottom_left, width, height, visible, ents.drop_last());
        let e = ents.last();
        match drawn_at(e, bottom_left, width, height, visible) {
            Some(c) => {
                let old_cell = r.0[c.1][c.0];
                (r.0.update(c.1, r.0[c.1].update(c.0, (e.1.0, e.1.1, old_cell.2))), r.1.push((e.1, e.2)))
            },
            None => r,
        }
    }
}

/// An entity glyph as plain values: tile, glyph, and name (`"???"` without one).
pub open spec fn glyph_entity(e: EntityGlyph) -> (GridVec, GlyphView, Seq<char>) {
    (e.pos, (e.symbol@, e.fg, e.bg), match e.name {
        Some(n) => n@,
        None => "???"@,
    })
}

/// Draws the entities over the map glyphs and lists the drawn ones.
pub fn overlay_entities(
    packet: &mut RenderPacket,
    bottom_left: GridVec,
    width: i32,
    height: i32,
    visible: Option<&PointSet>,
    entities: &Vec<EntityGlyph>,
) -> (seen: Vec<SeenEntity>)
    requires
        roomy(bottom_left),
        0 <= width,
        0 <= height,
        forall|i: int| 0 <= i < entities@.len() ==> roomy(#[trigger] entities@[i].pos),
        packet_covers(packet_view(old(packet)@), width as int, height as int),
    ensures
        packet_view(final(packet)@) == overlay_spec(
            packet_view(old(packet)@),
            bottom_left,
            width as int,
            height as int,
            match visible { Some(v) => Some(v@), None => None },
            entities@.map(|_i: int, e: EntityGlyph| glyph_entity(e)),
        ).0,
        seen@.map(|_i: int, s: SeenEntity| ((s.symbol@, s.fg, s.bg), s.name@)) == overlay_spec(
            packet_view(old(packet)@),
            bottom_left,
            width as int,
            height as int,
            match visible { Some(v) => Some(v@), None => None },
            entities@.map(|_i: int, e: EntityGlyph| glyph_entity(e)),
        ).1,
{
    let ghost vis = match visible {
        Some(v) => Some(v@),
        None => None,
    };
    let ghost ents = entities@.map(|_i: int, e: EntityGlyph| glyph_entity(e));
    let mut seen: Vec<SeenEntity> = Vec::new();
    let mut i: usize = 0;
    proof {
        reveal_strlit("???");
    }
    while i < entities.len()
        invariant
            i <= entities@.len(),
            roomy(bottom_left),
            0 <= width,
            0 <= height,
            forall|k: int| 0 <= k < entities@.len() ==> roomy(#[trigger] entities@[k].pos),
            vis == (match visible { Some(v) => Some(v@), None => None }),
            ents == entities@.map(|_i: int, e: EntityGlyph| glyph_entity(e)),
            packet_covers(packet_view(packet@), width as int, height as int),
            packet@.len() == old(packet)@.len(),
            (packet_view(packet@), seen@.map(|_i: int, s: SeenEntity| ((s.symbol@, s.fg, s.bg), s.name@)))
                == overlay_spec(packet_view(old(packet)@), bottom_left, width as int, height as int, vis, ents.subrange(0, i as int)),
        decreases entities@.len() - i,
    {
        let e = &entities[i];
        proof {
            assert(ents.subrange(0, i + 1).drop_last() == ents.subrange(0, i as int));
            assert(ents.subrange(0, i + 1).last() == glyph_entity(entities@[i as int]));
            assert(roomy(entities@[i as int].pos));
        }
        let sx = e.pos.x - bottom_left.x;
        let sy = e.pos.y - bottom_left.y;
        let ghost before_seen = seen@.map(|_i: int, s: SeenEntity| ((s.symbol@, s.fg, s.bg), s.name@));
        let ghost before_packet = packet_view(packet@);
        if 0 <= sx && sx < width && 0 <= sy && sy < height {
            let in_view = match visible {
                Some(v) => v.contains(&(e.pos.x, e.pos.y)),
                None => true,
            };
            if in_view {
                let y = sy as usize;
                let x = sx as usize;
                proof {
                    assert(packet_view(packet@)[y as int].len() >= width);
                    assert(packet_view(packet@)[y as int] == packet@[y as int]@.map(|_j: int, t: GraphicTriple| triple_view(t)));
                }
                let mut row: Vec<GraphicTriple> = Vec::new();
                packet.set_and_swap(y, &mut row);
                let cell_bg = row[x].2;
                let ghost row_before = row@;
                row.set(x, (e.symbol.clone(), e.fg, cell_bg));
                let ghost row_after = row@;
                packet.set(y, row);
                let name = match &e.name {
                    Some(n) => n.clone(),
                    None => "???".to_owned(),
                };
                seen.push(SeenEntity { symbol: e.symbol.clone(), fg: e.fg, bg: e.bg, name });
                proof {
                    let c = (sx as int, sy as int);
                    assert(drawn_at(ents[i as int], bottom_left, width as int, height as int, vis) == Some(c));
                    assert(row_after.map(|_j: int, t: GraphicTriple| triple_view(t)) =~= before_packet[c.1].update(c.0, (e.symbol@, e.fg, before_packet[c.1][c.0].2)));
                    assert(packet_view(packet@) =~= before_packet.update(c.1, before_packet[c.1].update(c.0, (e.symbol@, e.fg, before_packet[c.1][c.0].2))));
                    assert(seen@.map(|_i: int, s: SeenEntity| ((s.symbol@, s.fg, s.bg), s.name@)) =~= before_seen.push(((e.symbol@, e.fg, e.bg), ents[i as int].2)));
                    assert forall|yy: int| 0 <= yy < packet_view(packet@).len() implies #[trigger] packet_view(packet@)[yy].len() >= width by {
                        if yy != y {
                            assert(packet_view(packet@)[yy] == before_packet[yy]);
                        }
                    }
                }
            } else {
                proof {
                    assert(drawn_at(ents[i as int], bottom_left, width as int, height as int, vis) is None);
                }
            }
        } else {
            proof {
                assert(drawn_at(ents[i as int], bottom_left, width as int, height as int, vis) is None);
            }
        }
        i += 1;
    }
    proof {
        assert(ents.subrange(0, entities@.len() as int) == ents);
    }
    seen
}

/// The indices of the first entry of each distinct name, in order.
pub open spec fn first_of_names(names: Seq<Seq<char>>) -> Seq<int>
    decreases names.len(),
{
    if names.len() == 0 {
        Seq::empty()
    } else {
        let r = first_of_names(names.drop_last());
        if names.drop_last().contains(names.last()) {
            r
        } else {
            r.push(names.len() - 1)
        }
    }
}

/// The entities the side panel lists: the first of each name, in order, and at most
/// `max_lines` of them (one at least, if there is any entity).
pub open spec fn panel_entries(names: Seq<Seq<char>>, max_lines: int) -> Seq<int> {
    let f = first_of_names(names);
    let cap = if max_lines >= 1 { max_lines } else { 1 };
    if f.len() <= cap {
        f
    } else {
        f.subrange(0, cap)
    }
}

/// Picks which entities in sight the side panel lists, by index.
pub fn visible_entity_entries(seen: &Vec<SeenEntity>, max_lines: usize) -> (idx: Vec<usize>)
    ensures
        idx@.map(|_i: int, k: usize| k as int) == panel_entries(seen@.map(|_i: int, s: SeenEntity| s.name@), max_lines as int),
{
    let ghost names = seen@.map(|_i: int, s: SeenEntity| s.name@);
    let mut idx: Vec<usize> = Vec::new();
    let mut i: usize = 0;
    while i < seen.len()
        invariant
            i <= seen@.len(),
            names == seen@.map(|_i: int, s: SeenEntity| s.name@),
            idx@.map(|_i: int, k: usize| k as int) == first_of_names(names.subrange(0, i as int)),
            forall|k: int| 0 <= k < idx@.len() ==> #[trigger] idx@[k] < i,
            idx@.len() < (if max_lines >= 1 { max_lines as int } else { 1 }),
        decreases seen@.len() - i,
    {
        proof {
            assert(names.subrange(0, i + 1).drop_last() == names.subrange(0, i as int));
            assert(names.subrange(0, i + 1).last() == names[i as int]);
        }
        let mut dup = false;
        let mut j: usize = 0;
        while j < i
            invariant
                j <= i < seen@.len(),
                names == seen@.map(|_i: int, s: SeenEntity| s.name@),
                dup == names.subrange(0, j as int).contains(names[i as int]),
            decreases i - j,
        {
            proof {
                assert(names.subrange(0, j + 1) == names.subrange(0, j as int).push(names[j as int]));
            }
            let same = seen[j].name == seen[i].name;
            proof {
                let a = names.subrange(0, j as int);
                let b = names.subrange(0, j + 1);
                assert(names[j as int] == seen@[j as int].name@);
                assert(names[i as int] == seen@[i as int].name@);
                if same {
                    assert(b[j as int] == names[i as int]);
                } else if !a.contains(names[i as int]) {
                    assert forall|k: int| 0 <= k < b.len() implies b[k] != names[i as int] by {
                        if k < j {
                            assert(b[k] == a[k]);
                        }
                    }
                } else {
                    let k = choose|k: int| 0 <= k < a.len() && a[k] == names[i as int];
                    assert(b[k] == a[k]);
                }
            }
            if same {
                dup = true;
            }
            j += 1;
        }
        if !dup {
            idx.push(i);
            proof {
                assert(idx@.map(|_i: int, k: usize| k as int) =~= first_of_names(names.subrange(0, i as int)).push(i as int));
            }
            if idx.len() >= max_lines {
                proof {
                    lemma_first_of_names_prefix(names, i as int + 1);
                }
                return idx;
            }
        }
        i += 1;
    }
    proof {
        assert(names.subrange(0, seen@.len() as int) == names);
    }
    idx
}

/// The first-of-name indices of a sequence begin with those of any prefix.
proof fn lemma_first_of_names_prefix(names: Seq<Seq<char>>, n: int)
    requires
        0 <= n <= names.len(),
    ensures
        first_of_names(names.subrange(0, n)).len() <= first_of_names(names).len(),
        first_of_names(names).subrange(0, first_of_names(names.subrange(0, n)).len() as int) == first_of_names(names.subrange(0, n)),
    decreases names.len() - n,
{
    if n < names.len() {
        lemma_first_of_names_prefix(names, n + 1);
        let a = names.subrange(0, n);
        let b = names.subrange(0, n + 1);
        assert(b.drop_last() == a);
        let fa = first_of_names(a);
        let fb = first_of_names(b);
        assert(fb.subrange(0, fa.len() as int) =~= fa);
        let fall = first_of_names(names);
        assert(fall.subrange(0, fa.len() as int) =~= fall.subrange(0, fb.len() as int).subrange(0, fa.len() as int));
    } else {
        assert(names.subrange(0, n) =~= names);
        assert(first_of_names(names).subrange(0, first_of_names(names).len() as int) =~= first_of_names(names));
    }
}

/// Where a one-row label of `label_width` sits centered on an area at `(x, y)` of
/// `width` by `height`: none when the label does not fit or the area has no row.
pub fn label_origin(x: u16, y: u16, width: u16, height: u16, label_width: u16) -> (o: Option<(u16, u16)>)
    ensures
        o == (if width >= label_width && height >= 1 && x + (width - label_width) / 2 <= u16::MAX && y + height / 2 <= u16::MAX {
            Some(((x + (width - label_width) / 2) as u16, (y + height / 2) as u16))
        } else {
            None
        }),
{
    if width >= label_width && height >= 1 {
        let cx = x as u32 + ((width - label_width) / 2) as u32;
        let cy = y as u32 + (height / 2) as u32;
        if cx <= u16::MAX as u32 && cy <= u16::MAX as u32 {
            return Some((cx as u16, cy as u16));
        }
    }
    None
}

/// Where a box of `box_width` by `box_height` sits centered on an area at `(x, y)` of
/// `width` by `height`: none when the box does not fit.
pub fn centered_box(x: u16, y: u16, width: u16, height: u16, box_width: u16, box_height: u16) -> (o: Option<(u16, u16)>)
    ensures
        o == (if width >= box_width && height >= box_height && x + (width - box_width) / 2 <= u16::MAX && y + (height - box_height) / 2 <= u16::MAX {
            Some(((x + (width - box_width) / 2) as u16, (y + (height - box_height) / 2) as u16))
        } else {
            None
        }),
{
    if width >= box_width && height >= box_height {
        let cx = x as u32 + ((width - box_width) / 2) as u32;
        let cy = y as u32 + ((height - box_height) / 2) as u32;
        if cx <= u16::MAX as u32 && cy <= u16::MAX as u32 {
            return Some((cx as u16, cy as u16));
        }
    }
    None
}

} // verus!
