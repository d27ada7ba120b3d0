use walk_the_dog::boy::RedHatBoy;
use walk_the_dog::game_loop::{GameLoop, FRAME_SIZE};
use walk_the_dog::sprite::{
    Animation, Cell, Sheet, SheetEntry, SheetRect, SpriteSheet, TileEntry,
};
use walk_the_dog::walk::{KeyState, RunTag, Walk, WalkTheDog};

fn cell(x: i16, y: i16, w: i16, h: i16) -> Cell {
    Cell {
        frame: SheetRect { x, y, w, h },
        sprite_source_size: SheetRect { x: 0, y: 0, w, h },
    }
}

fn complete_sheet() -> Sheet {
    let mut sheet = Sheet::new();
    let animations = [
        (Animation::Idle, 10u8),
        (Animation::Run, 8),
        (Animation::Slide, 5),
        (Animation::Jump, 12),
        (Animation::Dead, 10),
    ];
    for (animation, count) in animations {
        for index in 1..=count {
            sheet.push(SheetEntry { animation, index, cell: cell(0, 0, 160, 160) });
        }
    }
    sheet
}

fn tile_sheet() -> SpriteSheet {
    let mut tiles = SpriteSheet::new();
    tiles.push(TileEntry { id: 13, cell: cell(0, 0, 60, 54) });
    tiles.push(TileEntry { id: 14, cell: cell(60, 0, 264, 93) });
    tiles.push(TileEntry { id: 15, cell: cell(324, 0, 60, 54) });
    tiles
}

fn fresh_game() -> WalkTheDog {
    WalkTheDog::start(Walk::new(RedHatBoy::new(complete_sheet()), 600, 600, 90, 54, tile_sheet()))
}

#[test]
fn a_short_frame_runs_no_tick() {
    let mut driver = GameLoop::new(0);
    let mut game = fresh_game();
    let (ticks, _) = driver.frame(500, &mut game, &KeyState::new());
    assert_eq!(ticks, 0);
    assert_eq!(driver.accumulated_delta, 500);
    assert_eq!(driver.last_frame, 500);
}

#[test]
fn one_quantum_and_a_half_runs_one_tick() {
    let mut driver = GameLoop::new(0);
    let mut game = fresh_game();
    let (ticks, _) = driver.frame(FRAME_SIZE + 500, &mut game, &KeyState::new());
    assert_eq!(ticks, 1);
    assert_eq!(driver.accumulated_delta, 500);
}

#[test]
fn exactly_one_quantum_is_not_yet_a_tick() {
    // The accumulator must exceed the quantum before a tick runs.
    let mut driver = GameLoop::new(0);
    let mut game = fresh_game();
    let (ticks, _) = driver.frame(FRAME_SIZE, &mut game, &KeyState::new());
    assert_eq!(ticks, 0);
    assert_eq!(driver.accumulated_delta, FRAME_SIZE);
    let (ticks, _) = driver.frame(FRAME_SIZE + 1, &mut game, &KeyState::new());
    assert_eq!(ticks, 1);
    assert_eq!(driver.accumulated_delta, 1);
}

#[test]
fn a_long_frame_drains_multiple_ticks() {
    let mut driver = GameLoop::new(1000);
    let mut game = fresh_game();
    let (ticks, _) = driver.frame(1000 + 3 * FRAME_SIZE + 500, &mut game, &KeyState::new());
    assert_eq!(ticks, 3);
    assert_eq!(driver.accumulated_delta, 500);
}

#[test]
fn leftover_time_carries_into_the_next_frame() {
    let mut driver = GameLoop::new(0);
    let mut game = fresh_game();
    let (ticks, _) = driver.frame(900, &mut game, &KeyState::new());
    assert_eq!(ticks, 0);
    let (ticks, _) = driver.frame(1200, &mut game, &KeyState::new());
    assert_eq!(ticks, 1);
    assert_eq!(driver.accumulated_delta, 200);
}

#[test]
fn ticks_drive_the_game() {
    let mut driver = GameLoop::new(0);
    let mut game = fresh_game();
    let right = KeyState { right: true, down: false, space: false, new_game: false };
    driver.frame(2 * FRAME_SIZE + 1, &mut game, &right);
    assert_eq!(game.run_state(), Some(RunTag::Walking));
}

#[test]
fn simulation_rate_is_independent_of_frame_timing() {
    // Two drivers fed the same total time in different slices run the
    // same number of ticks.
    let mut a = GameLoop::new(0);
    let mut game_a = fresh_game();
    let mut total_a: u64 = 0;
    for now in [400u64, 1300, 1700, 2600, 5200] {
        let (t, _) = a.frame(now, &mut game_a, &KeyState::new());
        total_a += t;
    }
    let mut b = GameLoop::new(0);
    let mut game_b = fresh_game();
    let mut total_b: u64 = 0;
    for now in [5200u64] {
        let (t, _) = b.frame(now, &mut game_b, &KeyState::new());
        total_b += t;
    }
    // 5200 units drain 5 ticks either way, with 200 left over... the
    // accumulators agree even if the slicing differs.
    assert_eq!(total_a, total_b);
    assert_eq!(a.accumulated_delta, b.accumulated_delta);
}
