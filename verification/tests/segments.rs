use walk_the_dog::obstacle::Obstacle;
use walk_the_dog::segment::{platform_and_stone, stone_and_platform, tile_sheet_is_complete};
use walk_the_dog::sprite::{Cell, SheetRect, SpriteSheet, TileEntry};

fn cell(x: i16, y: i16, w: i16, h: i16) -> Cell {
    Cell {
        frame: SheetRect { x, y, w, h },
        sprite_source_size: SheetRect { x: 0, y: 0, w, h },
    }
}

fn tile_sheet() -> SpriteSheet {
    let mut tiles = SpriteSheet::new();
    tiles.push(TileEntry { id: 13, cell: cell(0, 0, 60, 54) });
    tiles.push(TileEntry { id: 14, cell: cell(60, 0, 264, 93) });
    tiles.push(TileEntry { id: 15, cell: cell(324, 0, 60, 54) });
    tiles
}

#[test]
fn stone_and_platform_layout() {
    let tiles = tile_sheet();
    let segment = stone_and_platform(90, 54, &tiles, 0);
    assert_eq!(segment.len(), 2);
    match &segment[0] {
        Obstacle::Barrier(stone) => {
            assert_eq!(stone.position().x, 150);
            assert_eq!(stone.position().y, 546);
            assert_eq!(stone.right(), 240);
        }
        Obstacle::Platform(_) => panic!("expected the stone first"),
    }
    match &segment[1] {
        Obstacle::Platform(platform) => {
            assert_eq!(platform.position().x, 400);
            assert_eq!(platform.position().y, 420);
            assert_eq!(platform.bounding_boxes().len(), 3);
            assert_eq!(platform.right(), 784);
            assert_eq!(platform.sprites().len(), 3);
        }
        Obstacle::Barrier(_) => panic!("expected the platform second"),
    }
}

#[test]
fn platform_and_stone_layout() {
    let tiles = tile_sheet();
    let segment = platform_and_stone(90, 54, &tiles, 100);
    assert_eq!(segment.len(), 2);
    match &segment[0] {
        Obstacle::Platform(platform) => {
            assert_eq!(platform.position().x, 300);
            assert_eq!(platform.position().y, 375);
            assert_eq!(platform.right(), 684);
        }
        Obstacle::Barrier(_) => panic!("expected the platform first"),
    }
    match &segment[1] {
        Obstacle::Barrier(stone) => {
            assert_eq!(stone.position().x, 450);
            assert_eq!(stone.position().y, 546);
            assert_eq!(stone.right(), 540);
        }
        Obstacle::Platform(_) => panic!("expected the stone second"),
    }
}

fn all_boxes(o: &Obstacle) -> Vec<walk_the_dog::geometry::Rect> {
    match o {
        Obstacle::Platform(p) => p.bounding_boxes().clone(),
        Obstacle::Barrier(b) => {
            vec![walk_the_dog::geometry::Rect::new(
                b.position(),
                b.right() - b.position().x,
                54,
            )]
        }
    }
}

#[test]
fn template_obstacles_do_not_overlap() {
    let tiles = tile_sheet();
    for segment in [
        stone_and_platform(90, 54, &tiles, 0),
        platform_and_stone(90, 54, &tiles, 0),
        stone_and_platform(400, 54, &tiles, 500),
        platform_and_stone(400, 54, &tiles, 500),
    ] {
        let first = all_boxes(&segment[0]);
        let second = all_boxes(&segment[1]);
        for a in &first {
            for b in &second {
                assert!(!a.intersects(b));
                assert!(!b.intersects(a));
            }
        }
    }
}

#[test]
fn tile_sheet_completeness_check() {
    let tiles = tile_sheet();
    assert!(tile_sheet_is_complete(&tiles));
    let mut partial = SpriteSheet::new();
    partial.push(TileEntry { id: 13, cell: cell(0, 0, 60, 54) });
    partial.push(TileEntry { id: 14, cell: cell(60, 0, 264, 93) });
    assert!(!tile_sheet_is_complete(&partial));
}

#[test]
fn segments_shift_with_the_offset() {
    let tiles = tile_sheet();
    let at_zero = stone_and_platform(90, 54, &tiles, 0);
    let at_thousand = stone_and_platform(90, 54, &tiles, 1000);
    match (&at_zero[1], &at_thousand[1]) {
        (Obstacle::Platform(a), Obstacle::Platform(b)) => {
            assert_eq!(b.position().x - a.position().x, 1000);
            assert_eq!(b.right() - a.right(), 1000);
        }
        _ => panic!("expected platforms"),
    }
}
