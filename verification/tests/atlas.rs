use walk_the_dog::boy::sheet_is_complete;
use walk_the_dog::sprite::{
    cell_ok_exec, Animation, Cell, Sheet, SheetEntry, SheetRect, SpriteSheet, TileEntry,
};

fn cell(x: i16, y: i16, w: i16, h: i16) -> Cell {
    Cell {
        frame: SheetRect { x, y, w, h },
        sprite_source_size: SheetRect { x: 0, y: 0, w, h },
    }
}

fn complete_sheet() -> Sheet {
    let mut sheet = Sheet::new();
    let animations = [
        (Animation::Idle, 10u8),
        (Animation::Run, 8),
        (Animation::Slide, 5),
        (Animation::Jump, 12),
        (Animation::Dead, 10),
    ];
    for (animation, count) in animations {
        for index in 1..=count {
            sheet.push(SheetEntry { animation, index, cell: cell(0, 0, 160, 160) });
        }
    }
    sheet
}

#[test]
fn sheet_lookup_finds_a_present_key() {
    let sheet = complete_sheet();
    assert!(sheet.get(Animation::Run, 3).is_some());
    assert!(sheet.get(Animation::Dead, 10).is_some());
}

#[test]
fn sheet_lookup_misses_an_absent_key() {
    let sheet = complete_sheet();
    assert!(sheet.get(Animation::Run, 9).is_none());
    assert!(sheet.get(Animation::Slide, 0).is_none());
}

#[test]
fn sheet_lookup_returns_the_first_match() {
    let mut sheet = Sheet::new();
    sheet.push(SheetEntry { animation: Animation::Idle, index: 1, cell: cell(1, 0, 30, 30) });
    sheet.push(SheetEntry { animation: Animation::Idle, index: 1, cell: cell(2, 0, 30, 30) });
    let found = sheet.get(Animation::Idle, 1).unwrap();
    assert_eq!(found.frame.x, 1);
}

#[test]
fn complete_sheet_passes_the_completeness_check() {
    assert!(sheet_is_complete(&complete_sheet()));
}

#[test]
fn sheet_missing_one_key_fails_the_completeness_check() {
    let mut sheet = Sheet::new();
    let animations = [
        (Animation::Idle, 10u8),
        (Animation::Run, 8),
        (Animation::Slide, 5),
        (Animation::Jump, 12),
        (Animation::Dead, 10),
    ];
    for (animation, count) in animations {
        for index in 1..=count {
            if animation == Animation::Jump && index == 12 {
                continue;
            }
            sheet.push(SheetEntry { animation, index, cell: cell(0, 0, 160, 160) });
        }
    }
    assert!(!sheet_is_complete(&sheet));
}

#[test]
fn sheet_with_an_undersized_frame_fails_the_completeness_check() {
    let mut sheet = complete_sheet();
    // A frame narrower than the collision margin cannot carry the
    // character's collision box.
    sheet.push(SheetEntry { animation: Animation::Idle, index: 1, cell: cell(0, 0, 10, 10) });
    let mut narrow = Sheet::new();
    narrow.push(SheetEntry { animation: Animation::Idle, index: 1, cell: cell(0, 0, 10, 10) });
    for entry in sheet.frames {
        narrow.push(entry);
    }
    assert!(!sheet_is_complete(&narrow));
}

#[test]
fn cell_bounds_check_accepts_and_rejects() {
    assert!(cell_ok_exec(&cell(0, 0, 160, 160)));
    assert!(cell_ok_exec(&cell(4096, 4096, 28, 14)));
    assert!(!cell_ok_exec(&cell(-1, 0, 160, 160)));
    assert!(!cell_ok_exec(&cell(0, 0, 27, 160)));
    assert!(!cell_ok_exec(&cell(0, 0, 160, 13)));
    assert!(!cell_ok_exec(&cell(0, 0, 5000, 160)));
}

#[test]
fn tile_lookup_by_number() {
    let mut tiles = SpriteSheet::new();
    tiles.push(TileEntry { id: 13, cell: cell(0, 0, 60, 54) });
    tiles.push(TileEntry { id: 14, cell: cell(60, 0, 264, 93) });
    let found = tiles.cell(14).unwrap();
    assert_eq!(found.frame.x, 60);
    assert!(tiles.cell(15).is_none());
}

#[test]
fn tile_sheet_well_formedness_check() {
    let mut tiles = SpriteSheet::new();
    tiles.push(TileEntry { id: 13, cell: cell(0, 0, 60, 54) });
    assert!(tiles.is_well_formed());
    tiles.push(TileEntry { id: 14, cell: cell(-5, 0, 60, 54) });
    assert!(!tiles.is_well_formed());
}
