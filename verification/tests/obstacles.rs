use walk_the_dog::boy::RedHatBoy;
use walk_the_dog::geometry::{Point, Rect};
use walk_the_dog::obstacle::{Barrier, Image, Obstacle, Platform};
use walk_the_dog::sprite::{
    Animation, Cell, Sheet, SheetEntry, SheetRect, SpriteSheet, TileEntry,
};

fn cell(x: i16, y: i16, w: i16, h: i16) -> Cell {
    Cell {
        frame: SheetRect { x, y, w, h },
        sprite_source_size: SheetRect { x: 0, y: 0, w, h },
    }
}

fn complete_sheet() -> Sheet {
    let mut sheet = Sheet::new();
    let animations = [
        (Animation::Idle, 10u8),
        (Animation::Run, 8),
        (Animation::Slide, 5),
        (Animation::Jump, 12),
        (Animation::Dead, 10),
    ];
    for (animation, count) in animations {
        for index in 1..=count {
            sheet.push(SheetEntry { animation, index, cell: cell(0, 0, 160, 160) });
        }
    }
    sheet
}

fn tile_sheet() -> SpriteSheet {
    let mut tiles = SpriteSheet::new();
    tiles.push(TileEntry { id: 13, cell: cell(0, 0, 60, 54) });
    tiles.push(TileEntry { id: 14, cell: cell(60, 0, 264, 93) });
    tiles.push(TileEntry { id: 15, cell: cell(324, 0, 60, 54) });
    tiles
}

fn running_boy() -> RedHatBoy {
    let mut boy = RedHatBoy::new(complete_sheet());
    boy.run_right();
    boy
}

#[test]
fn platform_places_boxes_relative_to_its_position() {
    let tiles = tile_sheet();
    let platform = Platform::new(
        &tiles,
        Point { x: 400, y: 420 },
        &vec![13, 14, 15],
        &vec![
            Rect::new_from_x_y(0, 0, 60, 54),
            Rect::new_from_x_y(60, 0, 264, 93),
            Rect::new_from_x_y(324, 0, 60, 54),
        ],
    );
    let boxes = platform.bounding_boxes();
    assert_eq!(boxes.len(), 3);
    assert_eq!(boxes[0].x(), 400);
    assert_eq!(boxes[0].y(), 420);
    assert_eq!(boxes[1].x(), 460);
    assert_eq!(boxes[2].x(), 724);
    assert_eq!(platform.sprites().len(), 3);
    assert_eq!(platform.right(), 784);
}

#[test]
fn platform_takes_the_sheet_cells_in_order() {
    let tiles = tile_sheet();
    let platform = Platform::new(
        &tiles,
        Point { x: 0, y: 420 },
        &vec![15, 13],
        &vec![Rect::new_from_x_y(0, 0, 60, 54)],
    );
    let sprites = platform.sprites();
    assert_eq!(sprites.len(), 2);
    assert_eq!(sprites[0].frame.x, 324);
    assert_eq!(sprites[1].frame.x, 0);
}

#[test]
fn platform_scrolls_with_its_boxes() {
    let tiles = tile_sheet();
    let mut platform = Platform::new(
        &tiles,
        Point { x: 100, y: 420 },
        &vec![13],
        &vec![Rect::new_from_x_y(0, 0, 60, 54)],
    );
    platform.move_horizontally(-3);
    assert_eq!(platform.position().x, 97);
    assert_eq!(platform.bounding_boxes()[0].x(), 97);
    assert_eq!(platform.right(), 157);
}

#[test]
fn platform_draw_rects_accumulate_tile_widths() {
    let tiles = tile_sheet();
    let platform = Platform::new(
        &tiles,
        Point { x: 400, y: 420 },
        &vec![13, 14, 15],
        &vec![Rect::new_from_x_y(0, 0, 60, 54)],
    );
    assert!(platform.draw_fits());
    let draws = platform.draw_rects();
    assert_eq!(draws.len(), 3);
    // Sources are the tiles' frames in the sheet image.
    assert_eq!(draws[0].0.x(), 0);
    assert_eq!(draws[1].0.x(), 60);
    assert_eq!(draws[2].0.x(), 324);
    // Destinations are laid left to right from the platform position.
    assert_eq!(draws[0].1.x(), 400);
    assert_eq!(draws[0].1.y(), 420);
    assert_eq!(draws[0].1.width, 60);
    assert_eq!(draws[1].1.x(), 460);
    assert_eq!(draws[1].1.width, 264);
    assert_eq!(draws[2].1.x(), 724);
}

#[test]
fn platform_resolution_lands_when_approaching_from_above() {
    // Moving downward with the character's top above the platform's
    // top: land-on, feet at the box surface.
    let mut boy = running_boy();
    boy.update();
    assert!(boy.velocity_y() > 0);
    assert_eq!(boy.pos_y(), 480);

    let tiles = tile_sheet();
    let platform = Obstacle::Platform(Platform::new(
        &tiles,
        Point { x: 0, y: 500 },
        &vec![13],
        &vec![Rect::new_from_x_y(-40, 0, 200, 54)],
    ));
    platform.check_intersection(&mut boy);
    assert_eq!(boy.animation(), Animation::Run);
    assert_eq!(boy.pos_y(), 500 - 120);
}

#[test]
fn platform_resolution_knocks_out_from_the_side() {
    // Intersecting without the approach-from-above conditions is a
    // knock-out.
    let mut boy = running_boy();
    boy.update();
    assert!(boy.velocity_y() > 0);

    let tiles = tile_sheet();
    let platform = Obstacle::Platform(Platform::new(
        &tiles,
        Point { x: 0, y: 450 },
        &vec![13],
        &vec![Rect::new_from_x_y(-40, 0, 200, 54)],
    ));
    // The character's top is not above the platform's top.
    platform.check_intersection(&mut boy);
    assert_eq!(boy.animation(), Animation::Dead);
    assert_eq!(boy.velocity_y(), 0);
}

#[test]
fn platform_without_intersection_is_a_no_op() {
    let mut boy = running_boy();
    boy.update();
    let tiles = tile_sheet();
    let platform = Obstacle::Platform(Platform::new(
        &tiles,
        Point { x: 2000, y: 500 },
        &vec![13],
        &vec![Rect::new_from_x_y(0, 0, 200, 54)],
    ));
    platform.check_intersection(&mut boy);
    assert_eq!(boy.animation(), Animation::Run);
}

#[test]
fn barrier_knocks_out_on_any_contact() {
    let mut boy = running_boy();
    boy.update();
    let barrier = Obstacle::Barrier(Barrier::new(Image::new(Point { x: 0, y: 500 }, 90, 54)));
    barrier.check_intersection(&mut boy);
    assert_eq!(boy.animation(), Animation::Dead);
}

#[test]
fn barrier_without_contact_is_a_no_op() {
    let mut boy = running_boy();
    boy.update();
    let barrier = Obstacle::Barrier(Barrier::new(Image::new(Point { x: 1500, y: 500 }, 90, 54)));
    barrier.check_intersection(&mut boy);
    assert_eq!(boy.animation(), Animation::Run);
}

#[test]
fn obstacle_right_edges() {
    let barrier = Obstacle::Barrier(Barrier::new(Image::new(Point { x: 100, y: 500 }, 90, 54)));
    assert_eq!(barrier.right(), 190);

    let mut moved = barrier;
    moved.move_horizontally(-200);
    assert_eq!(moved.right(), -10);
}
