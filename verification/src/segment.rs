//! The segment generator: fixed obstacle layout templates placed at a
//! horizontal start offset. Each template keeps two invariants, proved
//! here: no two of its obstacles overlap, and every box lies within a
//! known horizontal extent from the offset, so the next segment can be
//! chained after it with a buffer gap.

use vstd::prelude::*;
use crate::geometry::{Point, PointView, Rect, RectView, spec_intersects};
use crate::sprite::{CellView, SpriteSheet, TileEntryView, cell_ok, spec_tile_lookup, sprite_sheet_ok};
use crate::obstacle::{
    Barrier, Image, Obstacle, ObstacleView, Platform, PlatformView, obstacle_wf, platform_wf,
    spec_obstacle_right, spec_place_box,
};

verus! {

/// Ground line a stone barrier sits on.
pub const STONE_ON_GROUND: i16 = 546;
/// Surface heights of the two platform placements.
pub const LOW_PLATFORM: i16 = 420;
pub const HIGH_PLATFORM: i16 = 375;
/// Horizontal placement of each template's parts, relative to the offset.
pub const INITIAL_STONE_OFFSET: i16 = 150;
pub const STONE_AND_PLATFORM_PLATFORM_OFFSET: i16 = 400;
pub const PLATFORM_AND_STONE_PLATFORM_OFFSET: i16 = 200;
pub const PLATFORM_AND_STONE_STONE_OFFSET: i16 = 350;
/// Total width of a floating platform's three tiles.
pub const FLOATING_PLATFORM_WIDTH: i16 = 384;
/// The widest a stone sprite may be, and the farthest any template
/// reaches beyond its offset.
pub const MAX_STONE_WIDTH: i16 = 1000;
pub const SEGMENT_EXTENT: i16 = 1360;
/// Offsets are kept below this so every generated coordinate fits `i16`.
pub const MAX_SEGMENT_OFFSET: i16 = 10000;

/// The tile numbers a floating platform is drawn from, left to right.
pub open spec fn floating_platform_tiles() -> Seq<int> {
    seq![13, 14, 15]
}

/// The boxes a floating platform occupies when its leftmost tile sits
/// at `(x, y)`: two narrow edge boxes around a deeper middle box.
pub open spec fn floating_platform_boxes(x: int, y: int) -> Seq<RectView> {
    seq![
        (RectView { x, y, width: 60, height: 54 }),
        (RectView { x: x + 60, y, width: 264, height: 93 }),
        (RectView { x: x + 324, y, width: 60, height: 54 }),
    ]
}

/// Whether the tile sheet holds every tile the templates draw from.
/// A tile missing from a loaded atlas is a fatal configuration error
/// — mismatched assets — so segments are only built from complete
/// sheets, never by silently skipping tiles.
pub open spec fn tile_sheet_complete(tiles: Seq<TileEntryView>) -> bool {
    &&& spec_tile_lookup(tiles, 13) is Some
    &&& spec_tile_lookup(tiles, 14) is Some
    &&& spec_tile_lookup(tiles, 15) is Some
}

/// Whether the sheet holds every template tile; the host checks a
/// freshly loaded tile atlas with this before handing it to the game.
pub fn tile_sheet_is_complete(sheet: &SpriteSheet) -> (r: bool)
    ensures
        r == tile_sheet_complete(sheet@),
{
    sheet.cell(13).is_some() && sheet.cell(14).is_some() && sheet.cell(15).is_some()
}

/// The cells a floating platform draws, in tile order, as a complete
/// sheet holds them.
pub open spec fn floating_platform_cells(tiles: Seq<TileEntryView>) -> Seq<CellView> {
    seq![
        spec_tile_lookup(tiles, 13)->Some_0,
        spec_tile_lookup(tiles, 14)->Some_0,
        spec_tile_lookup(tiles, 15)->Some_0,
    ]
}

/// The full shape of the stone-then-platform template at `offset`:
/// the stone on the ground, then a low floating platform.
pub open spec fn is_stone_and_platform(
    obs: Seq<ObstacleView>,
    tiles: Seq<TileEntryView>,
    stone_width: int,
    stone_height: int,
    offset: int,
) -> bool {
    &&& obs.len() == 2
    &&& obs[0] == ObstacleView::Barrier(RectView {
        x: offset + INITIAL_STONE_OFFSET as int,
        y: STONE_ON_GROUND as int,
        width: stone_width,
        height: stone_height,
    })
    &&& obs[1] == ObstacleView::Platform(PlatformView {
        bounding_boxes: floating_platform_boxes(
            offset + STONE_AND_PLATFORM_PLATFORM_OFFSET as int,
            LOW_PLATFORM as int,
        ),
        sprites: floating_platform_cells(tiles),
        position: PointView {
            x: offset + STONE_AND_PLATFORM_PLATFORM_OFFSET as int,
            y: LOW_PLATFORM as int,
        },
    })
}

/// The full shape of the platform-then-stone template at `offset`:
/// a high floating platform, then the stone on the ground.
pub open spec fn is_platform_and_stone(
    obs: Seq<ObstacleView>,
    tiles: Seq<TileEntryView>,
    stone_width: int,
    stone_height: int,
    offset: int,
) -> bool {
    &&& obs.len() == 2
    &&& obs[0] == ObstacleView::Platform(PlatformView {
        bounding_boxes: floating_platform_boxes(
            offset + PLATFORM_AND_STONE_PLATFORM_OFFSET as int,
            HIGH_PLATFORM as int,
        ),
        sprites: floating_platform_cells(tiles),
        position: PointView {
            x: offset + PLATFORM_AND_STONE_PLATFORM_OFFSET as int,
            y: HIGH_PLATFORM as int,
        },
    })
    &&& obs[1] == ObstacleView::Barrier(RectView {
        x: offset + PLATFORM_AND_STONE_STONE_OFFSET as int,
        y: STONE_ON_GROUND as int,
        width: stone_width,
        height: stone_height,
    })
}

/// The boxes an obstacle occupies.
pub open spec fn obstacle_boxes(o: ObstacleView) -> Seq<RectView> {
    match o {
        ObstacleView::Platform(p) => p.bounding_boxes,
        ObstacleView::Barrier(r) => seq![r],
    }
}

/// No box of one obstacle intersects any box of the other.
pub open spec fn obstacles_disjoint(o1: ObstacleView, o2: ObstacleView) -> bool {
    forall|a: int, b: int|
        0 <= a < obstacle_boxes(o1).len() && 0 <= b < obstacle_boxes(o2).len()
            ==> !(#[trigger] spec_intersects(obstacle_boxes(o1)[a], obstacle_boxes(o2)[b]))
}

/// Every box of the obstacle lies within `[lo, hi]` horizontally, and
/// its draw position too.
pub open spec fn obstacle_bounds(o: ObstacleView, lo: int, hi: int) -> bool {
    &&& forall|a: int| 0 <= a < obstacle_boxes(o).len()
        ==> lo <= (#[trigger] obstacle_boxes(o)[a]).x && obstacle_boxes(o)[a].right() <= hi
    &&& match o {
        ObstacleView::Platform(p) => lo <= p.position.x <= hi,
        ObstacleView::Barrier(_) => true,
    }
}

/// What both template functions promise: two well-formed, mutually
/// disjoint obstacles within the segment's extent from the offset.
pub open spec fn segment_ok(obs: Seq<ObstacleView>, offset_x: int) -> bool {
    &&& obs.len() == 2
    &&& obstacle_wf(obs[0])
    &&& obstacle_wf(obs[1])
    &&& obstacle_boxes(obs[0]).len() >= 1
    &&& obstacle_boxes(obs[1]).len() >= 1
    &&& obstacles_disjoint(obs[0], obs[1])
    &&& obstacle_bounds(obs[0], offset_x, offset_x + SEGMENT_EXTENT as int)
    &&& obstacle_bounds(obs[1], offset_x, offset_x + SEGMENT_EXTENT as int)
}

/// The three tiles of a floating platform and the boxes they occupy,
/// relative to the platform position: two narrow edge boxes and a
/// deeper middle box.
fn floating_platform_parts() -> (r: (Vec<u16>, Vec<Rect>))
    ensures
        r.0@ =~= seq![13u16, 14u16, 15u16],
        r.1@.map_values(|b: Rect| b@) =~= seq![
            (RectView { x: 0, y: 0, width: 60, height: 54 }),
            (RectView { x: 60, y: 0, width: 264, height: 93 }),
            (RectView { x: 324, y: 0, width: 60, height: 54 }),
        ],
{
    let ids: Vec<u16> = vec![13, 14, 15];
    let boxes: Vec<Rect> = vec![
        Rect::new_from_x_y(0, 0, 60, 54),
        Rect::new_from_x_y(60, 0, 264, 93),
        Rect::new_from_x_y(324, 0, 60, 54),
    ];
    (ids, boxes)
}

/// A three-tile floating platform whose surface is at `position.y`.
pub fn create_floating_platform(sprite_sheet: &SpriteSheet, position: Point) -> (r: Platform)
    requires
        0 <= position@.x <= MAX_SEGMENT_OFFSET as int + STONE_AND_PLATFORM_PLATFORM_OFFSET as int,
        0 <= position@.y,
        position@.y + 93 <= crate::boy::HEIGHT as int,
        sprite_sheet_ok(sheet_view(sprite_sheet)),
        tile_sheet_complete(sheet_view(sprite_sheet)),
    ensures
        r@.position == position@,
        r@.bounding_boxes =~= floating_platform_boxes(position@.x, position@.y),
        r@.sprites =~= floating_platform_cells(sprite_sheet@),
        platform_wf(r@),
{
    let (ids, boxes) = floating_platform_parts();
    proof {
        let vs = boxes@.map_values(|b: Rect| b@);
        assert(vs.len() == 3);
        assert(vs[0] == (RectView { x: 0, y: 0, width: 60, height: 54 }));
        assert(boxes@[0]@.x == 0);
        assert forall|k: int| 0 <= k < boxes@.len()
            implies i16::MIN <= (#[trigger] boxes@[k])@.x + position@.x <= i16::MAX
                && i16::MIN <= boxes@[k]@.y + position@.y <= i16::MAX by {
            assert(vs[k] == boxes@[k]@);
            if k == 0 {
                assert(vs[0] == (RectView { x: 0, y: 0, width: 60, height: 54 }));
            } else if k == 1 {
                assert(vs[1] == (RectView { x: 60, y: 0, width: 264, height: 93 }));
            } else {
                assert(vs[2] == (RectView { x: 324, y: 0, width: 60, height: 54 }));
            }
        }
        assert(ids@.len() == 3);
        assert forall|k: int| 0 <= k < ids@.len()
            implies spec_tile_lookup(sheet_view(sprite_sheet), (#[trigger] ids@[k]) as int) is Some by {
            if k == 0 {
                assert(ids@[0] == 13u16);
            } else if k == 1 {
                assert(ids@[1] == 14u16);
            } else {
                assert(ids@[2] == 15u16);
            }
        }
    }
    let platform = Platform::new(sprite_sheet, position, &ids, &boxes);
    proof {
        let placed = boxes@.map_values(|b: Rect| b@).map_values(|b: RectView| spec_place_box(b, position@));
        assert(placed[0] == (RectView { x: position@.x, y: position@.y, width: 60, height: 54 }));
        assert(placed[1] == (RectView { x: position@.x + 60, y: position@.y, width: 264, height: 93 }));
        assert(placed[2] == (RectView { x: position@.x + 324, y: position@.y, width: 60, height: 54 }));
        assert(platform@.bounding_boxes =~= placed);
        assert(platform@.sprites[0] == spec_tile_lookup(sprite_sheet@, 13)->Some_0);
        assert(platform@.sprites[1] == spec_tile_lookup(sprite_sheet@, 14)->Some_0);
        assert(platform@.sprites[2] == spec_tile_lookup(sprite_sheet@, 15)->Some_0);
        assert(platform@.sprites =~= floating_platform_cells(sprite_sheet@));
        lemma_tile_lookup_ok(sprite_sheet@, 13);
        lemma_tile_lookup_ok(sprite_sheet@, 14);
        lemma_tile_lookup_ok(sprite_sheet@, 15);
        assert forall|k: int| 0 <= k < platform@.sprites.len()
            implies cell_ok(#[trigger] platform@.sprites[k]) by {
            if k == 0 {
            } else if k == 1 {
            } else {
                assert(k == 2);
            }
        }
    }
    platform
}

/// A helper naming the tile sheet's view for use in `requires`.
pub open spec fn sheet_view(sheet: &SpriteSheet) -> Seq<TileEntryView> {
    sheet@
}

/// A found tile of a well-formed sheet is within bounds.
proof fn lemma_tile_lookup_ok(tiles: Seq<TileEntryView>, id: int)
    requires
        sprite_sheet_ok(tiles),
    ensures
        spec_tile_lookup(tiles, id) matches Some(c) ==> cell_ok(c),
    decreases tiles.len(),
{
    if tiles.len() > 0 && tiles[0].id != id {
        assert forall|k: int| 0 <= k < tiles.drop_first().len()
            implies cell_ok(#[trigger] tiles.drop_first()[k].cell) by {
            assert(tiles.drop_first()[k] == tiles[k + 1]);
        }
        lemma_tile_lookup_ok(tiles.drop_first(), id);
    }
}

/// The template with a stone on the ground followed by a low floating
/// platform.
pub fn stone_and_platform(stone_width: i16, stone_height: i16, sprite_sheet: &SpriteSheet, offset_x: i16) -> (r: Vec<Obstacle>)
    requires
        0 < stone_width <= MAX_STONE_WIDTH as int,
        0 < stone_height as int <= crate::boy::HEIGHT as int - STONE_ON_GROUND as int,
        0 <= offset_x <= MAX_SEGMENT_OFFSET as int,
        sprite_sheet_ok(sheet_view(sprite_sheet)),
        tile_sheet_complete(sheet_view(sprite_sheet)),
    ensures
        segment_ok(r@.map_values(|o: Obstacle| o@), offset_x as int),
        is_stone_and_platform(
            r@.map_values(|o: Obstacle| o@),
            sprite_sheet@,
            stone_width as int,
            stone_height as int,
            offset_x as int,
        ),
        spec_obstacle_right(r@[1]@) == offset_x as int + STONE_AND_PLATFORM_PLATFORM_OFFSET as int + FLOATING_PLATFORM_WIDTH as int,
    {
    let stone = Barrier::new(Image::new(
        Point { x: offset_x + INITIAL_STONE_OFFSET, y: STONE_ON_GROUND },
        stone_width,
        stone_height,
    ));
    let platform = create_floating_platform(
        sprite_sheet,
        Point { x: offset_x + STONE_AND_PLATFORM_PLATFORM_OFFSET, y: LOW_PLATFORM },
    );
    proof {
        lemma_right_most_three(platform@.bounding_boxes);
    }
    let mut r: Vec<Obstacle> = Vec::new();
    r.push(Obstacle::Barrier(stone));
    r.push(Obstacle::Platform(platform));
    r
}

/// The template with a high floating platform followed by a stone on
/// the ground.
pub fn platform_and_stone(stone_width: i16, stone_height: i16, sprite_sheet: &SpriteSheet, offset_x: i16) -> (r: Vec<Obstacle>)
    requires
        0 < stone_width <= MAX_STONE_WIDTH as int,
        0 < stone_height as int <= crate::boy::HEIGHT as int - STONE_ON_GROUND as int,
        0 <= offset_x <= MAX_SEGMENT_OFFSET as int,
        sprite_sheet_ok(sheet_view(sprite_sheet)),
        tile_sheet_complete(sheet_view(sprite_sheet)),
    ensures
        segment_ok(r@.map_values(|o: Obstacle| o@), offset_x as int),
        is_platform_and_stone(
            r@.map_values(|o: Obstacle| o@),
            sprite_sheet@,
            stone_width as int,
            stone_height as int,
            offset_x as int,
        ),
        spec_obstacle_right(r@[0]@) == offset_x as int + PLATFORM_AND_STONE_PLATFORM_OFFSET as int + FLOATING_PLATFORM_WIDTH as int,
    {
    let platform = create_floating_platform(
        sprite_sheet,
        Point { x: offset_x + PLATFORM_AND_STONE_PLATFORM_OFFSET, y: HIGH_PLATFORM },
    );
    let stone = Barrier::new(Image::new(
        Point { x: offset_x + PLATFORM_AND_STONE_STONE_OFFSET, y: STONE_ON_GROUND },
        stone_width,
        stone_height,
    ));
    proof {
        lemma_right_most_three(platform@.bounding_boxes);
    }
    let mut r: Vec<Obstacle> = Vec::new();
    r.push(Obstacle::Platform(platform));
    r.push(Obstacle::Barrier(stone));
    r
}

/// The largest right edge of a three-box sequence, unfolded.
proof fn lemma_right_most_three(boxes: Seq<RectView>)
    requires
        boxes.len() == 3,
    ensures
        crate::obstacle::spec_right_most_box(boxes) == ({
            let a = boxes[0].right();
            let b = boxes[1].right();
            let c = boxes[2].right();
            if c > (if b > a { b } else { a }) { c } else if b > a { b } else { a }
        }),
{
    reveal_with_fuel(crate::obstacle::spec_right_most_box, 5);
    let two = boxes.drop_last();
    let one = two.drop_last();
    assert(one.len() == 1);
    assert(one[0] == boxes[0]);
    assert(two.last() == boxes[1]);
    assert(boxes.last() == boxes[2]);
    assert(crate::obstacle::spec_right_most_box(one) == boxes[0].right());
}

} // verus!
