//! Sprite-atlas data: a frame's source rectangle and padding offset
//! within a spritesheet image, and the two lookup structures the game
//! uses (the character's sheet, keyed by animation and frame index, and
//! the obstacle tile sheet, keyed by tile number).

use vstd::prelude::*;
use crate::geometry::RectView;

verus! {

/// A rectangle within a spritesheet image, as the atlas file stores it.
#[derive(Clone, Copy, Debug)]
pub struct SheetRect {
    pub x: i16,
    pub y: i16,
    pub w: i16,
    pub h: i16,
}

impl View for SheetRect {
    type V = RectView;

    open spec fn view(&self) -> RectView {
        RectView { x: self.x as int, y: self.y as int, width: self.w as int, height: self.h as int }
    }
}

/// One atlas entry: the frame's rectangle within the spritesheet image
/// and a source-offset rectangle used to align sprite padding.
#[derive(Clone, Copy, Debug)]
pub struct Cell {
    pub frame: SheetRect,
    pub sprite_source_size: SheetRect,
}

/// Mathematical model of a `Cell`.
pub ghost struct CellView {
    pub frame: RectView,
    pub sprite_source_size: RectView,
}

impl View for Cell {
    type V = CellView;

    open spec fn view(&self) -> CellView {
        CellView { frame: self.frame@, sprite_source_size: self.sprite_source_size@ }
    }
}

/// Bounds on an atlas entry that keep every rectangle derived from it
/// within `i16`. The frame is at least as large as the inward margin
/// taken off the character's collision box.
pub open spec fn cell_ok(c: CellView) -> bool {
    &&& 0 <= c.frame.x <= 4096
    &&& 0 <= c.frame.y <= 4096
    &&& 28 <= c.frame.width <= 4096
    &&& 14 <= c.frame.height <= 4096
    &&& 0 <= c.sprite_source_size.x <= 4096
    &&& 0 <= c.sprite_source_size.y <= 4096
}

/// The closed set of character animations; each atlas key names one of
/// them together with a 1-based frame index.
#[derive(Clone, Copy, Debug, PartialEq, Eq, Structural)]
pub enum Animation {
    Idle,
    Run,
    Slide,
    Jump,
    Dead,
}

/// One entry of the character's sheet: the animation, the 1-based frame
/// index within it, and the atlas cell found under that key.
#[derive(Clone, Copy, Debug)]
pub struct SheetEntry {
    pub animation: Animation,
    pub index: u8,
    pub cell: Cell,
}

/// Mathematical model of a `SheetEntry`.
pub ghost struct SheetEntryView {
    pub animation: Animation,
    pub index: int,
    pub cell: CellView,
}

impl View for SheetEntry {
    type V = SheetEntryView;

    open spec fn view(&self) -> SheetEntryView {
        SheetEntryView { animation: self.animation, index: self.index as int, cell: self.cell@ }
    }
}

/// First entry whose key matches, as the lookup finds it.
pub open spec fn spec_sheet_lookup(entries: Seq<SheetEntryView>, animation: Animation, index: int) -> Option<CellView>
    decreases entries.len(),
{
    if entries.len() == 0 {
        None
    } else if entries[0].animation == animation && entries[0].index == index {
        Some(entries[0].cell)
    } else {
        spec_sheet_lookup(entries.drop_first(), animation, index)
    }
}

/// The character's sprite atlas, loaded once at initialization and
/// immutable thereafter.
#[derive(Clone, Debug)]
pub struct Sheet {
    pub frames: Vec<SheetEntry>,
}

impl View for Sheet {
    type V = Seq<SheetEntryView>;

    open spec fn view(&self) -> Seq<SheetEntryView> {
        self.frames@.map_values(|e: SheetEntry| e@)
    }
}

impl Sheet {
    pub fn new() -> (r: Sheet)
        ensures
            r@ =~= Seq::<SheetEntryView>::empty(),
    {
        Sheet { frames: Vec::new() }
    }

    pub fn push(&mut self, entry: SheetEntry)
        ensures
            final(self)@ =~= old(self)@.push(entry@),
    {
        self.frames.push(entry);
    }

    /// Looks up the cell stored under an animation-frame key.
    pub fn get(&self, animation: Animation, index: u8) -> (r: Option<Cell>)
        ensures
            match r {
                Some(c) => spec_sheet_lookup(self@, animation, index as int) == Some(c@),
                None => spec_sheet_lookup(self@, animation, index as int) is None,
            },
    {
        let mut i: usize = 0;
        proof {
            assert(self@.skip(0) =~= self@);
        }
        while i < self.frames.len()
            invariant
                0 <= i <= self.frames.len(),
                forall|k: int| 0 <= k < i ==> !(#[trigger] self@[k].animation == animation && self@[k].index == index as int),
                spec_sheet_lookup(self@, animation, index as int)
                    == spec_sheet_lookup(self@.skip(i as int), animation, index as int),
            decreases self.frames.len() - i,
        {
            let e = &self.frames[i];
            proof {
                assert(self@.skip(i as int)[0] == self@[i as int]);
                assert(self@.skip(i as int).drop_first() =~= self@.skip(i as int + 1));
            }
            if matches_key(e, animation, index) {
                return Some(e.cell);
            }
            i = i + 1;
        }
        proof {
            assert(self@.skip(i as int).len() == 0);
        }
        None
    }
}

/// Whether an entry carries the given animation-frame key.
fn matches_key(e: &SheetEntry, animation: Animation, index: u8) -> (r: bool)
    ensures
        r == (e@.animation == animation && e@.index == index as int),
{
    e.animation == animation && e.index == index
}

/// One entry of the obstacle tile sheet, keyed by tile number.
#[derive(Clone, Copy, Debug)]
pub struct TileEntry {
    pub id: u16,
    pub cell: Cell,
}

/// Mathematical model of a `TileEntry`.
pub ghost struct TileEntryView {
    pub id: int,
    pub cell: CellView,
}

impl View for TileEntry {
    type V = TileEntryView;

    open spec fn view(&self) -> TileEntryView {
        TileEntryView { id: self.id as int, cell: self.cell@ }
    }
}

/// First tile whose number matches, as the lookup finds it.
pub open spec fn spec_tile_lookup(tiles: Seq<TileEntryView>, id: int) -> Option<CellView>
    decreases tiles.len(),
{
    if tiles.len() == 0 {
        None
    } else if tiles[0].id == id {
        Some(tiles[0].cell)
    } else {
        spec_tile_lookup(tiles.drop_first(), id)
    }
}

/// The obstacle tile atlas shared by all generated platforms.
#[derive(Clone, Debug)]
pub struct SpriteSheet {
    pub tiles: Vec<TileEntry>,
}

/// Every tile of the sheet satisfies the atlas entry bounds.
pub open spec fn sprite_sheet_ok(tiles: Seq<TileEntryView>) -> bool {
    forall|k: int| 0 <= k < tiles.len() ==> cell_ok(#[trigger] tiles[k].cell)
}

impl View for SpriteSheet {
    type V = Seq<TileEntryView>;

    open spec fn view(&self) -> Seq<TileEntryView> {
        self.tiles@.map_values(|e: TileEntry| e@)
    }
}

impl SpriteSheet {
    pub fn new() -> (r: SpriteSheet)
        ensures
            r@ =~= Seq::<TileEntryView>::empty(),
    {
        SpriteSheet { tiles: Vec::new() }
    }

    pub fn push(&mut self, tile: TileEntry)
        ensures
            final(self)@ =~= old(self)@.push(tile@),
    {
        self.tiles.push(tile);
    }

    /// Looks up a tile's cell by its number.
    pub fn cell(&self, id: u16) -> (r: Option<Cell>)
        ensures
            match r {
                Some(c) => spec_tile_lookup(self@, id as int) == Some(c@),
                None => spec_tile_lookup(self@, id as int) is None,
            },
    {
        let mut i: usize = 0;
        proof {
            assert(self@.skip(0) =~= self@);
        }
        while i < self.tiles.len()
            invariant
                0 <= i <= self.tiles.len(),
                spec_tile_lookup(self@, id as int) == spec_tile_lookup(self@.skip(i as int), id as int),
            decreases self.tiles.len() - i,
        {
            let e = &self.tiles[i];
            proof {
                assert(self@.skip(i as int)[0] == self@[i as int]);
                assert(self@.skip(i as int).drop_first() =~= self@.skip(i as int + 1));
            }
            if e.id == id {
                return Some(e.cell);
            }
            i = i + 1;
        }
        proof {
            assert(self@.skip(i as int).len() == 0);
        }
        None
    }

    /// Whether every tile satisfies the atlas entry bounds.
    pub fn is_well_formed(&self) -> (r: bool)
        ensures
            r == sprite_sheet_ok(self@),
    {
        let mut i: usize = 0;
        while i < self.tiles.len()
            invariant
                0 <= i <= self.tiles.len(),
                forall|k: int| 0 <= k < i ==> cell_ok(#[trigger] self@[k].cell),
            decreases self.tiles.len() - i,
        {
            if !cell_ok_exec(&self.tiles[i].cell) {
                proof {
                    assert(!cell_ok(self@[i as int].cell));
                }
                return false;
            }
            i = i + 1;
        }
        true
    }
}

/// Whether one atlas entry satisfies the bounds of `cell_ok`.
pub fn cell_ok_exec(c: &Cell) -> (r: bool)
    ensures
        r == cell_ok(c@),
{
    0 <= c.frame.x && c.frame.x <= 4096
        && 0 <= c.frame.y && c.frame.y <= 4096
        && 28 <= c.frame.w && c.frame.w <= 4096
        && 14 <= c.frame.h && c.frame.h <= 4096
        && 0 <= c.sprite_source_size.x && c.sprite_source_size.x <= 4096
        && 0 <= c.sprite_source_size.y && c.sprite_source_size.y <= 4096
}

} // verus!
