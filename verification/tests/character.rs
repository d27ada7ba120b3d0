use walk_the_dog::boy::{
    Event, Idle, RedHatBoyContext, RedHatBoyState, RedHatBoyStateMachine, FLOOR, IDLE_FRAMES,
    JUMP_SPEED, PLAYER_HEIGHT, RUNNING_SPEED, SLIDING_FRAMES, STARTING_POINT, TERMINAL_VELOCITY,
};
use walk_the_dog::geometry::Point;

fn idle_machine() -> RedHatBoyStateMachine {
    RedHatBoyStateMachine::Idle(RedHatBoyState::<Idle>::new())
}

fn running_machine() -> RedHatBoyStateMachine {
    idle_machine().transition(Event::Run)
}

#[test]
fn new_boy_starts_idle_at_the_starting_point() {
    let machine = idle_machine();
    assert_eq!(machine.frame_name(), "Idle");
    assert_eq!(machine.context().position.x, STARTING_POINT);
    assert_eq!(machine.context().position.y, FLOOR);
    assert_eq!(machine.context().velocity.x, 0);
    assert_eq!(machine.context().velocity.y, 0);
}

#[test]
fn run_transition_adds_running_speed() {
    let machine = running_machine();
    assert_eq!(machine.frame_name(), "Run");
    assert_eq!(machine.context().velocity.x, RUNNING_SPEED);
    assert_eq!(machine.context().frame, 0);
}

#[test]
fn unhandled_events_leave_the_state_unchanged() {
    // Pairs outside the transition table are no-ops.
    let idle = idle_machine();
    for event in [Event::Slide, Event::Jump, Event::KnockOut, Event::Land(400)] {
        let after = idle.transition(event);
        assert_eq!(after.frame_name(), "Idle");
        assert_eq!(after.context().position.y, idle.context().position.y);
        assert_eq!(after.context().velocity.x, idle.context().velocity.x);
        assert_eq!(after.context().velocity.y, idle.context().velocity.y);
        assert_eq!(after.context().frame, idle.context().frame);
    }

    let running = running_machine();
    let after = running.transition(Event::Run);
    assert_eq!(after.frame_name(), "Run");
    assert_eq!(after.context().frame, running.context().frame);

    // KnockedOut is terminal: even Update is ignored.
    let knocked = falling_completed();
    for event in [Event::Update, Event::Run, Event::Slide, Event::Jump, Event::KnockOut] {
        let after = knocked.transition(event);
        assert!(after.knocked_out());
        assert_eq!(after.context().frame, knocked.context().frame);
    }
}

#[test]
fn update_applies_gravity_and_clamps_to_floor() {
    let machine = idle_machine().update();
    assert_eq!(machine.context().velocity.y, 1);
    assert_eq!(machine.context().position.y, FLOOR);
    assert_eq!(machine.context().frame, 1);
}

#[test]
fn gravity_stops_at_terminal_velocity() {
    let ctx = RedHatBoyContext {
        frame: 0,
        position: Point { x: 0, y: 100 },
        velocity: Point { x: 0, y: TERMINAL_VELOCITY },
    };
    let updated = ctx.update(IDLE_FRAMES);
    assert_eq!(updated.velocity.y, TERMINAL_VELOCITY);
    assert_eq!(updated.position.y, 100 + TERMINAL_VELOCITY);
}

#[test]
fn frame_counter_wraps_at_the_frame_count() {
    let ctx = RedHatBoyContext {
        frame: IDLE_FRAMES,
        position: Point { x: 0, y: FLOOR },
        velocity: Point { x: 0, y: 0 },
    };
    let updated = ctx.update(IDLE_FRAMES);
    assert_eq!(updated.frame, 0);
}

#[test]
fn position_is_clamped_to_the_floor() {
    let ctx = RedHatBoyContext {
        frame: 0,
        position: Point { x: 0, y: FLOOR - 5 },
        velocity: Point { x: 0, y: TERMINAL_VELOCITY },
    };
    let updated = ctx.update(IDLE_FRAMES);
    assert_eq!(updated.position.y, FLOOR);
}

#[test]
fn sliding_returns_to_running_after_exactly_fourteen_updates() {
    // From slide entry the machine stays Sliding for SLIDING_FRAMES - 1
    // updates and stands back up on the SLIDING_FRAMES-th.
    let mut machine = running_machine().transition(Event::Slide);
    assert_eq!(machine.frame_name(), "Slide");
    for tick in 1..SLIDING_FRAMES {
        machine = machine.update();
        assert_eq!(machine.frame_name(), "Slide", "still sliding at tick {}", tick);
        assert_eq!(machine.context().frame, tick);
    }
    machine = machine.update();
    assert_eq!(machine.frame_name(), "Run");
}

#[test]
fn sliding_ignores_input_events() {
    let sliding = running_machine().transition(Event::Slide);
    for event in [Event::Run, Event::Slide, Event::Jump] {
        let after = sliding.transition(event);
        assert_eq!(after.frame_name(), "Slide");
        assert_eq!(after.context().frame, sliding.context().frame);
    }
}

#[test]
fn jump_applies_the_impulse() {
    let machine = running_machine().transition(Event::Jump);
    assert_eq!(machine.frame_name(), "Jump");
    assert_eq!(machine.context().velocity.y, JUMP_SPEED);
    assert_eq!(machine.context().frame, 0);
}

#[test]
fn jump_from_the_floor_lands_after_exactly_fifty_updates() {
    // Fixed impulse and gravity make the airtime deterministic.
    let mut machine = running_machine().transition(Event::Jump);
    for tick in 1..50 {
        machine = machine.update();
        assert_eq!(machine.frame_name(), "Jump", "still airborne at tick {}", tick);
        assert!(machine.context().position.y < FLOOR);
    }
    machine = machine.update();
    assert_eq!(machine.frame_name(), "Run");
    assert_eq!(machine.context().position.y, FLOOR);
}

#[test]
fn knock_out_stops_the_character() {
    let machine = running_machine().transition(Event::KnockOut);
    assert_eq!(machine.frame_name(), "Dead");
    assert_eq!(machine.context().velocity.x, 0);
    assert_eq!(machine.context().velocity.y, 0);
    assert_eq!(machine.context().frame, 0);
}

fn falling_completed() -> RedHatBoyStateMachine {
    let mut machine = running_machine().transition(Event::KnockOut);
    for _ in 0..29 {
        machine = machine.update();
    }
    machine
}

#[test]
fn falling_completes_into_knocked_out_after_the_cycle() {
    let mut machine = running_machine().transition(Event::KnockOut);
    for tick in 1..29 {
        machine = machine.update();
        assert!(!machine.knocked_out(), "still falling at tick {}", tick);
    }
    machine = machine.update();
    assert!(machine.knocked_out());
    assert_eq!(machine.frame_name(), "Dead");
}

#[test]
fn landing_places_the_feet_on_the_surface() {
    let machine = running_machine().transition(Event::Land(500));
    assert_eq!(machine.frame_name(), "Run");
    assert_eq!(machine.context().position.y, 500 - PLAYER_HEIGHT);
}

#[test]
fn landing_from_a_jump_resets_the_frame() {
    let mut machine = running_machine().transition(Event::Jump);
    machine = machine.update();
    let landed = machine.transition(Event::Land(500));
    assert_eq!(landed.frame_name(), "Run");
    assert_eq!(landed.context().frame, 0);
    assert_eq!(landed.context().position.y, 500 - PLAYER_HEIGHT);
}
