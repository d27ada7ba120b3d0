use walk_the_dog::boy::RedHatBoy;
use walk_the_dog::geometry::Point;
use walk_the_dog::obstacle::{Barrier, Image, Obstacle};
use walk_the_dog::sprite::{
    Animation, Cell, Sheet, SheetEntry, SheetRect, SpriteSheet, TileEntry,
};
use walk_the_dog::walk::{
    KeyState, RunTag, Walk, WalkTheDog, WalkTheDogState, WalkTheDogStateMachine, Walking,
};

fn cell(x: i16, y: i16, w: i16, h: i16) -> Cell {
    Cell {
        frame: SheetRect { x, y, w, h },
        sprite_source_size: SheetRect { x: 0, y: 0, w, h },
    }
}

fn complete_sheet() -> Sheet {
    let mut sheet = Sheet::new();
    let animations = [
        (Animation::Idle, 10u8),
        (Animation::Run, 8),
        (Animation::Slide, 5),
        (Animation::Jump, 12),
        (Animation::Dead, 10),
    ];
    for (animation, count) in animations {
        for index in 1..=count {
            sheet.push(SheetEntry { animation, index, cell: cell(0, 0, 160, 160) });
        }
    }
    sheet
}

fn tile_sheet() -> SpriteSheet {
    let mut tiles = SpriteSheet::new();
    tiles.push(TileEntry { id: 13, cell: cell(0, 0, 60, 54) });
    tiles.push(TileEntry { id: 14, cell: cell(60, 0, 264, 93) });
    tiles.push(TileEntry { id: 15, cell: cell(324, 0, 60, 54) });
    tiles
}

fn fresh_walk() -> Walk {
    Walk::new(RedHatBoy::new(complete_sheet()), 600, 600, 90, 54, tile_sheet())
}

fn no_keys() -> KeyState {
    KeyState::new()
}

fn right_key() -> KeyState {
    KeyState { right: true, down: false, space: false, new_game: false }
}

#[test]
fn new_walk_holds_the_starting_segment() {
    let walk = fresh_walk();
    assert_eq!(walk.obstacles.len(), 2);
    match &walk.obstacles[0] {
        Obstacle::Barrier(stone) => {
            assert_eq!(stone.position().x, 150);
            assert_eq!(stone.position().y, 546);
        }
        Obstacle::Platform(_) => panic!("expected the stone first"),
    }
    assert_eq!(walk.timeline, 784);
    assert_eq!(walk.first_background.bounding_box().x(), 0);
    assert_eq!(walk.second_background.bounding_box().x(), 600);
}

#[test]
fn ready_waits_for_rightward_input() {
    let mut game = WalkTheDog::start(fresh_walk());
    assert_eq!(game.run_state(), Some(RunTag::Ready));
    game.update(&no_keys());
    assert_eq!(game.run_state(), Some(RunTag::Ready));
    game.update(&right_key());
    assert_eq!(game.run_state(), Some(RunTag::Walking));
}

#[test]
fn walking_scrolls_the_world_at_three_per_tick() {
    let mut game = WalkTheDog::start(fresh_walk());
    game.update(&right_key());
    let x0 = game.walk().unwrap().first_background.bounding_box().x();
    let stone_x0 = match &game.walk().unwrap().obstacles[0] {
        Obstacle::Barrier(stone) => stone.position().x,
        Obstacle::Platform(_) => panic!("expected the stone first"),
    };
    for _ in 0..5 {
        game.update(&no_keys());
    }
    let walk = game.walk().unwrap();
    assert_eq!(walk.first_background.bounding_box().x(), x0 - 15);
    assert_eq!(walk.second_background.bounding_box().x(), x0 + 600 - 15);
    match &walk.obstacles[0] {
        Obstacle::Barrier(stone) => assert_eq!(stone.position().x, stone_x0 - 15),
        Obstacle::Platform(_) => panic!("expected the stone first"),
    }
}

#[test]
fn background_wraps_when_its_right_edge_passes_zero() {
    // With a narrow background the wrap is reached quickly: a layer
    // whose right edge drops below 0 is re-anchored at the trailing
    // layer's right edge.
    let walk = Walk::new(RedHatBoy::new(complete_sheet()), 6, 600, 90, 54, tile_sheet());
    let mut game = WalkTheDog::start(walk);
    game.update(&right_key());
    // first layer: x goes 0, -3, -6 (right edge 0: no wrap yet), -9 -> wrap.
    game.update(&no_keys());
    game.update(&no_keys());
    {
        let walk = game.walk().unwrap();
        assert_eq!(walk.first_background.bounding_box().x(), -6);
        assert_eq!(walk.first_background.bounding_box().x() + 6, 0);
    }
    game.update(&no_keys());
    let walk = game.walk().unwrap();
    // After moving to -9 its right edge is -3 < 0; the second layer
    // sits at -9 + 6 = -3 with right edge 3, so the first re-anchors
    // at 3.
    assert_eq!(walk.second_background.bounding_box().x(), -3);
    assert_eq!(walk.first_background.bounding_box().x(), 3);
}

fn walk_with_obstacles(obstacles: Vec<Obstacle>, timeline: i16) -> Walk {
    let mut walk = fresh_walk();
    walk.boy.run_right();
    walk.obstacles = obstacles;
    walk.timeline = timeline;
    walk
}

fn walking_machine(walk: Walk) -> WalkTheDogStateMachine {
    WalkTheDogStateMachine::Walking(WalkTheDogState { walk, state: Walking })
}

#[test]
fn obstacles_are_dropped_once_their_right_edge_is_negative() {
    // An obstacle is retained while its right edge is >= 0 — exactly 0
    // still counts — and dropped once it is < 0.
    // Placed high enough not to touch the character, so the scroll
    // keeps its speed through all three ticks.
    let barrier = Obstacle::Barrier(Barrier::new(Image::new(Point { x: -87, y: 300 }, 90, 54)));
    assert_eq!(barrier.right(), 3);
    let mut machine = walking_machine(walk_with_obstacles(vec![barrier], 2000));

    // Tick 1: retained (right 3), then scrolled to right 0.
    let (next, _) = machine.update(&no_keys());
    machine = next;
    assert_eq!(machine.walk().obstacles.len(), 1);
    assert_eq!(machine.walk().obstacles[0].right(), 0);

    // Tick 2: a right edge of exactly 0 is retained; scrolled to -3.
    let (next, _) = machine.update(&no_keys());
    machine = next;
    assert_eq!(machine.walk().obstacles.len(), 1);
    assert_eq!(machine.walk().obstacles[0].right(), -3);

    // Tick 3: now past the edge, dropped.
    let (next, _) = machine.update(&no_keys());
    machine = next;
    assert_eq!(machine.walk().obstacles.len(), 0);
}

#[test]
fn course_is_extended_when_the_timeline_runs_low() {
    let mut machine = walking_machine(walk_with_obstacles(vec![], 999));
    let (next, _) = machine.update(&no_keys());
    machine = next;
    assert_eq!(machine.walk().obstacles.len(), 2);
    assert!(machine.walk().timeline > 1000);
    assert!(machine.walk().timeline <= 999 + 20 + 1360);
}

#[test]
fn timeline_scrolls_back_while_content_is_ahead() {
    let mut machine = walking_machine(walk_with_obstacles(vec![], 2000));
    let (next, _) = machine.update(&no_keys());
    machine = next;
    assert_eq!(machine.walk().timeline, 1997);
}

#[test]
fn generated_segments_are_one_of_the_two_templates() {
    // Repeated draws must always produce a two-obstacle template right
    // of the buffer gap; this exercises the random choice.
    for _ in 0..25 {
        let mut walk = walk_with_obstacles(vec![], 500);
        walk.generate_next_segment();
        assert_eq!(walk.obstacles.len(), 2);
        let shapes_a = matches!(&walk.obstacles[0], Obstacle::Barrier(_))
            && matches!(&walk.obstacles[1], Obstacle::Platform(_));
        let shapes_b = matches!(&walk.obstacles[0], Obstacle::Platform(_))
            && matches!(&walk.obstacles[1], Obstacle::Barrier(_));
        assert!(shapes_a || shapes_b);
        for o in &walk.obstacles {
            assert!(o.right() > 520);
        }
    }
}

#[test]
fn jump_sound_plays_only_when_the_running_character_jumps() {
    let mut game = WalkTheDog::start(fresh_walk());
    game.update(&right_key());
    let space = KeyState { right: false, down: false, space: true, new_game: false };
    let effects = game.update(&space);
    assert!(effects.play_jump_sound);
    // Already airborne: space no longer fires the sound.
    let effects = game.update(&space);
    assert!(!effects.play_jump_sound);
}

fn knocked_out_boy() -> RedHatBoy {
    let mut boy = RedHatBoy::new(complete_sheet());
    boy.run_right();
    boy.knock_out();
    for _ in 0..29 {
        boy.update();
    }
    boy
}

#[test]
fn knocked_out_character_ends_the_run() {
    // P8: a knocked-out character moves the run state to GameOver on
    // the next update, asking the host for the restart control; the
    // new-game signal then resets the world back to Ready.
    let mut walk = walk_with_obstacles(vec![], 2000);
    walk.boy = knocked_out_boy();
    let machine = walking_machine(walk);
    let (next, effects) = machine.update(&no_keys());
    assert!(effects.show_new_game_button);
    let machine = next;
    assert!(matches!(machine, WalkTheDogStateMachine::GameOver(_)));

    // No signal: stays in GameOver.
    let (machine, effects) = machine.update(&no_keys());
    assert!(!effects.hide_overlay);
    assert!(matches!(machine, WalkTheDogStateMachine::GameOver(_)));

    // The one-shot new-game signal resets the run.
    let new_game = KeyState { right: false, down: false, space: false, new_game: true };
    let (machine, effects) = machine.update(&new_game);
    assert!(effects.hide_overlay);
    assert!(matches!(machine, WalkTheDogStateMachine::Ready(_)));
    let walk = machine.walk();
    assert!(!walk.boy.knocked_out());
    assert_eq!(walk.boy.pos_y(), 480);
    assert_eq!(walk.boy.animation(), Animation::Idle);
    assert_eq!(walk.obstacles.len(), 2);
    match &walk.obstacles[0] {
        Obstacle::Barrier(stone) => assert_eq!(stone.position().x, 150),
        Obstacle::Platform(_) => panic!("expected the starting stone"),
    }
    match &walk.obstacles[1] {
        Obstacle::Platform(platform) => {
            // The regenerated starting platform carries the full
            // template layout, collision boxes included.
            let boxes = platform.bounding_boxes();
            assert_eq!(boxes.len(), 3);
            assert_eq!((boxes[0].x(), boxes[0].y(), boxes[0].width, boxes[0].height), (400, 420, 60, 54));
            assert_eq!((boxes[1].x(), boxes[1].width, boxes[1].height), (460, 264, 93));
            assert_eq!((boxes[2].x(), boxes[2].width), (724, 60));
            assert_eq!(platform.sprites().len(), 3);
        }
        Obstacle::Barrier(_) => panic!("expected the starting platform"),
    }
}

#[test]
fn uninitialized_game_ignores_updates() {
    let mut game = WalkTheDog::new();
    assert!(!game.is_initialized());
    let effects = game.update(&right_key());
    assert!(!effects.play_jump_sound);
    assert!(!effects.show_new_game_button);
    assert!(!effects.hide_overlay);
    assert!(game.run_state().is_none());
    assert!(game.walk().is_none());
}

#[test]
fn running_into_the_starting_stone_ends_the_run() {
    // End-to-end: left alone, the character scrolls into the starting
    // stone, falls, and the run ends in GameOver.
    let mut game = WalkTheDog::start(fresh_walk());
    game.update(&right_key());
    let mut over = false;
    for _ in 0..80 {
        game.update(&no_keys());
        if game.run_state() == Some(RunTag::GameOver) {
            over = true;
            break;
        }
    }
    assert!(over);
}
