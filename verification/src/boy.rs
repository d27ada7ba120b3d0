//! The character's animation/physics state machine: a closed set of
//! states, each wrapping the shared physics context, with transitions
//! that consume one state and produce the next by value.

use vstd::prelude::*;
use crate::geometry::{Point, PointView, Rect, RectView};
use crate::sprite::{Animation, Cell, CellView, Sheet, SheetEntryView, spec_sheet_lookup, cell_ok, cell_ok_exec};

verus! {

/// Screen height in pixels.
pub const HEIGHT: i16 = 600;
/// The ground's y coordinate; the character is clamped here after each update.
pub const FLOOR: i16 = 480;
/// The character's fixed horizontal screen position.
pub const STARTING_POINT: i16 = -50;
/// Frame counts of the animation cycles, at 3 ticks per sprite frame.
pub const IDLE_FRAMES: u8 = 29;
pub const RUN_FRAMES: u8 = 23;
pub const SLIDING_FRAMES: u8 = 14;
pub const JUMPING_FRAMES: u8 = 35;
pub const FALLING_FRAMES: u8 = 29;
/// Horizontal speed added when the character starts running.
pub const RUNNING_SPEED: i16 = 3;
/// Vertical impulse applied on jump.
pub const JUMP_SPEED: i16 = -25;
/// Added to the vertical velocity every tick, up to the terminal velocity.
pub const GRAVITY: i16 = 1;
/// Gravity stops accumulating once the vertical velocity reaches this.
pub const TERMINAL_VELOCITY: i16 = 20;
/// Height of the character's standing box: feet are placed this far above a surface.
pub const PLAYER_HEIGHT: i16 = HEIGHT - FLOOR;

/// The shared physics context: animation frame counter, position and velocity.
#[derive(Clone, Copy, Debug)]
pub struct RedHatBoyContext {
    pub frame: u8,
    pub position: Point,
    pub velocity: Point,
}

/// Mathematical model of the physics context.
pub ghost struct CtxView {
    pub frame: int,
    pub position: PointView,
    pub velocity: PointView,
}

impl View for RedHatBoyContext {
    type V = CtxView;

    open spec fn view(&self) -> CtxView {
        CtxView { frame: self.frame as int, position: self.position@, velocity: self.velocity@ }
    }
}

/// The vertical velocity after one tick of gravity, capped at the
/// terminal velocity.
pub open spec fn spec_gravity_velocity(c: CtxView) -> int {
    if c.velocity.y < TERMINAL_VELOCITY as int {
        c.velocity.y + GRAVITY as int
    } else {
        c.velocity.y
    }
}

/// One physics tick: gravity capped by terminal velocity, frame counter
/// advanced and wrapped at the cycle's frame count, vertical position
/// advanced by the velocity and clamped to the floor.
pub open spec fn spec_update_ctx(c: CtxView, frame_count: int) -> CtxView {
    let vy = spec_gravity_velocity(c);
    let frame = if c.frame < frame_count { c.frame + 1 } else { 0 };
    let y0 = c.position.y + vy;
    let y = if y0 > FLOOR as int { FLOOR as int } else { y0 };
    CtxView {
        frame,
        position: PointView { x: c.position.x, y },
        velocity: PointView { x: c.velocity.x, y: vy },
    }
}

/// The machine limits under which a physics tick stays within `i16`.
pub open spec fn update_fits(c: CtxView) -> bool {
    &&& i16::MIN <= c.position.y + spec_gravity_velocity(c)
    &&& c.position.y + spec_gravity_velocity(c) <= i16::MAX
}

pub open spec fn spec_reset_frame(c: CtxView) -> CtxView {
    CtxView { frame: 0, ..c }
}

pub open spec fn spec_run_right(c: CtxView) -> CtxView {
    CtxView { velocity: PointView { x: c.velocity.x + RUNNING_SPEED as int, y: c.velocity.y }, ..c }
}

pub open spec fn spec_set_vertical_velocity(c: CtxView, y: int) -> CtxView {
    CtxView { velocity: PointView { x: c.velocity.x, y }, ..c }
}

pub open spec fn spec_stop(c: CtxView) -> CtxView {
    CtxView { velocity: PointView { x: 0, y: 0 }, ..c }
}

/// Places the character's feet on a surface at the given y coordinate.
pub open spec fn spec_set_on(c: CtxView, position: int) -> CtxView {
    CtxView { position: PointView { x: c.position.x, y: position - PLAYER_HEIGHT as int }, ..c }
}

impl RedHatBoyContext {
    /// One physics tick; see `spec_update_ctx`.
    pub fn update(self, frame_count: u8) -> (r: Self)
        requires
            update_fits(self@),
        ensures
            r@ == spec_update_ctx(self@, frame_count as int),
    {
        let mut ctx = self;
        if ctx.velocity.y < TERMINAL_VELOCITY {
            ctx.velocity.y = ctx.velocity.y + GRAVITY;
        }
        if ctx.frame < frame_count {
            ctx.frame = ctx.frame + 1;
        } else {
            ctx.frame = 0;
        }
        ctx.position.y = ctx.position.y + ctx.velocity.y;
        if ctx.position.y > FLOOR {
            ctx.position.y = FLOOR;
        }
        ctx
    }

    pub fn reset_frame(self) -> (r: Self)
        ensures
            r@ == spec_reset_frame(self@),
    {
        let mut ctx = self;
        ctx.frame = 0;
        ctx
    }

    pub fn run_right(self) -> (r: Self)
        requires
            self@.velocity.x + RUNNING_SPEED as int <= i16::MAX,
        ensures
            r@ == spec_run_right(self@),
    {
        let mut ctx = self;
        ctx.velocity.x = ctx.velocity.x + RUNNING_SPEED;
        ctx
    }

    pub fn set_vertical_velocity(self, y: i16) -> (r: Self)
        ensures
            r@ == spec_set_vertical_velocity(self@, y as int),
    {
        let mut ctx = self;
        ctx.velocity.y = y;
        ctx
    }

    pub fn stop(self) -> (r: Self)
        ensures
            r@ == spec_stop(self@),
    {
        let mut ctx = self;
        ctx.velocity.x = 0;
        ctx.velocity.y = 0;
        ctx
    }

    /// See `spec_set_on`.
    pub fn set_on(self, position: i16) -> (r: Self)
        requires
            i16::MIN + PLAYER_HEIGHT as int <= position as int,
        ensures
            r@ == spec_set_on(self@, position as int),
    {
        let mut ctx = self;
        ctx.position.y = position - PLAYER_HEIGHT;
        ctx
    }
}

/// State markers; each labels one variant of the machine.
#[derive(Clone, Copy, Debug)]
pub struct Idle;

#[derive(Clone, Copy, Debug)]
pub struct Running;

#[derive(Clone, Copy, Debug)]
pub struct Sliding;

#[derive(Clone, Copy, Debug)]
pub struct Jumping;

#[derive(Clone, Copy, Debug)]
pub struct Falling;

#[derive(Clone, Copy, Debug)]
pub struct KnockedOut;

/// A state of the machine: the shared physics context tagged by a
/// state marker, so that each state only offers its own transitions.
#[derive(Clone, Copy, Debug)]
pub struct RedHatBoyState<S> {
    pub ctx: RedHatBoyContext,
    pub state: S,
}

impl<S> RedHatBoyState<S> {
    pub fn context(&self) -> (r: &RedHatBoyContext)
        ensures
            r == self.ctx,
    {
        &self.ctx
    }

    fn update_context(&mut self, frames: u8)
        requires
            update_fits(old(self).ctx@),
        ensures
            final(self).ctx@ == spec_update_ctx(old(self).ctx@, frames as int),
            final(self).state == old(self).state,
    {
        self.ctx = self.ctx.update(frames);
    }
}

impl RedHatBoyState<Idle> {
    /// The initial state: idle at the fixed starting position on the floor.
    pub fn new() -> (r: Self)
        ensures
            r.ctx@ == (CtxView {
                frame: 0,
                position: PointView { x: STARTING_POINT as int, y: FLOOR as int },
                velocity: PointView { x: 0, y: 0 },
            }),
    {
        RedHatBoyState {
            ctx: RedHatBoyContext {
                frame: 0,
                position: Point { x: STARTING_POINT, y: FLOOR },
                velocity: Point { x: 0, y: 0 },
            },
            state: Idle,
        }
    }

    pub fn run(self) -> (r: RedHatBoyState<Running>)
        requires
            self.ctx@.velocity.x + RUNNING_SPEED as int <= i16::MAX,
        ensures
            r.ctx@ == spec_run_right(spec_reset_frame(self.ctx@)),
    {
        RedHatBoyState { ctx: self.ctx.reset_frame().run_right(), state: Running }
    }

    pub fn frame_name(&self) -> (r: &'static str)
        ensures
            r@ == "Idle"@,
    {
        "Idle"
    }

    pub fn update(self) -> (r: Self)
        requires
            update_fits(self.ctx@),
        ensures
            r.ctx@ == spec_update_ctx(self.ctx@, IDLE_FRAMES as int),
    {
        let mut state = self;
        state.update_context(IDLE_FRAMES);
        state
    }
}

/// What a sliding update ends in: still sliding, or standing back up.
pub enum SlidingEndState {
    Running(RedHatBoyState<Running>),
    Sliding(RedHatBoyState<Sliding>),
}

impl RedHatBoyState<Sliding> {
    pub fn frame_name(&self) -> (r: &'static str)
        ensures
            r@ == "Slide"@,
    {
        "Slide"
    }

    /// A physics tick; once the frame counter reaches the sliding frame
    /// count, the character stands back up into Running.
    pub fn update(self) -> (r: SlidingEndState)
        requires
            update_fits(self.ctx@),
        ensures
            ({
                let c = spec_update_ctx(self.ctx@, SLIDING_FRAMES as int);
                if c.frame >= SLIDING_FRAMES as int {
                    r matches SlidingEndState::Running(s) && s.ctx@ == spec_reset_frame(c)
                } else {
                    r matches SlidingEndState::Sliding(s) && s.ctx@ == c
                }
            }),
    {
        let mut state = self;
        state.update_context(SLIDING_FRAMES);
        if state.ctx.frame >= SLIDING_FRAMES {
            SlidingEndState::Running(state.stand())
        } else {
            SlidingEndState::Sliding(state)
        }
    }

    pub fn stand(self) -> (r: RedHatBoyState<Running>)
        ensures
            r.ctx@ == spec_reset_frame(self.ctx@),
    {
        RedHatBoyState { ctx: self.ctx.reset_frame(), state: Running }
    }

    pub fn knock_out(self) -> (r: RedHatBoyState<Falling>)
        ensures
            r.ctx@ == spec_stop(spec_reset_frame(self.ctx@)),
    {
        RedHatBoyState { ctx: self.ctx.reset_frame().stop(), state: Falling }
    }

    pub fn land_on(self, position: i16) -> (r: RedHatBoyState<Running>)
        requires
            i16::MIN + PLAYER_HEIGHT as int <= position as int,
        ensures
            r.ctx@ == spec_set_on(self.ctx@, position as int),
    {
        RedHatBoyState { ctx: self.ctx.set_on(position), state: Running }
    }
}

impl RedHatBoyState<Running> {
    pub fn frame_name(&self) -> (r: &'static str)
        ensures
            r@ == "Run"@,
    {
        "Run"
    }

    pub fn update(self) -> (r: Self)
        requires
            update_fits(self.ctx@),
        ensures
            r.ctx@ == spec_update_ctx(self.ctx@, RUN_FRAMES as int),
    {
        let mut state = self;
        state.update_context(RUN_FRAMES);
        state
    }

    pub fn slide(self) -> (r: RedHatBoyState<Sliding>)
        ensures
            r.ctx@ == spec_reset_frame(self.ctx@),
    {
        RedHatBoyState { ctx: self.ctx.reset_frame(), state: Sliding }
    }

    /// Starts a jump: the vertical impulse is applied here; playing the
    /// jump sound is an action reported to the host by the orchestrator.
    pub fn jump(self) -> (r: RedHatBoyState<Jumping>)
        ensures
            r.ctx@ == spec_set_vertical_velocity(spec_reset_frame(self.ctx@), JUMP_SPEED as int),
    {
        RedHatBoyState {
            ctx: self.ctx.reset_frame().set_vertical_velocity(JUMP_SPEED),
            state: Jumping,
        }
    }

    pub fn knock_out(self) -> (r: RedHatBoyState<Falling>)
        ensures
            r.ctx@ == spec_stop(spec_reset_frame(self.ctx@)),
    {
        RedHatBoyState { ctx: self.ctx.reset_frame().stop(), state: Falling }
    }

    pub fn land_on(self, position: i16) -> (r: RedHatBoyState<Running>)
        requires
            i16::MIN + PLAYER_HEIGHT as int <= position as int,
        ensures
            r.ctx@ == spec_set_on(self.ctx@, position as int),
    {
        RedHatBoyState { ctx: self.ctx.set_on(position), state: Running }
    }
}

/// What a jumping update ends in: still airborne, or landed on the ground.
pub enum JumpingEndState {
    Landing(RedHatBoyState<Running>),
    Jumping(RedHatBoyState<Jumping>),
}

impl RedHatBoyState<Jumping> {
    pub fn frame_name(&self) -> (r: &'static str)
        ensures
            r@ == "Jump"@,
    {
        "Jump"
    }

    /// A physics tick; once the position returns to floor level the
    /// character lands on the ground, back into Running.
    pub fn update(self) -> (r: JumpingEndState)
        requires
            update_fits(self.ctx@),
        ensures
            ({
                let c = spec_update_ctx(self.ctx@, JUMPING_FRAMES as int);
                if c.position.y >= FLOOR as int {
                    r matches JumpingEndState::Landing(s)
                        && s.ctx@ == spec_set_on(spec_reset_frame(c), HEIGHT as int)
                } else {
                    r matches JumpingEndState::Jumping(s) && s.ctx@ == c
                }
            }),
    {
        let mut state = self;
        state.update_context(JUMPING_FRAMES);
        if state.ctx.position.y >= FLOOR {
            JumpingEndState::Landing(state.land_on(HEIGHT))
        } else {
            JumpingEndState::Jumping(state)
        }
    }

    pub fn knock_out(self) -> (r: RedHatBoyState<Falling>)
        ensures
            r.ctx@ == spec_stop(spec_reset_frame(self.ctx@)),
    {
        RedHatBoyState { ctx: self.ctx.reset_frame().stop(), state: Falling }
    }

    pub fn land_on(self, position: i16) -> (r: RedHatBoyState<Running>)
        requires
            i16::MIN + PLAYER_HEIGHT as int <= position as int,
        ensures
            r.ctx@ == spec_set_on(spec_reset_frame(self.ctx@), position as int),
    {
        RedHatBoyState { ctx: self.ctx.reset_frame().set_on(position), state: Running }
    }
}

/// What a falling update ends in: still falling, or knocked out for good.
pub enum FallingEndState {
    KnockedOut(RedHatBoyState<KnockedOut>),
    Falling(RedHatBoyState<Falling>),
}

impl RedHatBoyState<Falling> {
    pub fn frame_name(&self) -> (r: &'static str)
        ensures
            r@ == "Dead"@,
    {
        "Dead"
    }

    pub fn knock_out(self) -> (r: RedHatBoyState<KnockedOut>)
        ensures
            r.ctx@ == self.ctx@,
    {
        RedHatBoyState { ctx: self.ctx, state: KnockedOut }
    }

    /// A physics tick; once the falling animation completes, the
    /// character enters the terminal KnockedOut state.
    pub fn update(self) -> (r: FallingEndState)
        requires
            update_fits(self.ctx@),
        ensures
            ({
                let c = spec_update_ctx(self.ctx@, FALLING_FRAMES as int);
                if c.frame >= FALLING_FRAMES as int {
                    r matches FallingEndState::KnockedOut(s) && s.ctx@ == c
                } else {
                    r matches FallingEndState::Falling(s) && s.ctx@ == c
                }
            }),
    {
        let mut state = self;
        state.update_context(FALLING_FRAMES);
        if state.ctx.frame >= FALLING_FRAMES {
            FallingEndState::KnockedOut(state.knock_out())
        } else {
            FallingEndState::Falling(state)
        }
    }
}

impl RedHatBoyState<KnockedOut> {
    pub fn frame_name(&self) -> (r: &'static str)
        ensures
            r@ == "Dead"@,
    {
        "Dead"
    }
}

/// Which variant the machine is in; the ghost model tags the shared
/// context with one of these.
#[derive(Clone, Copy, Debug, PartialEq, Eq, Structural)]
pub enum StateTag {
    Idle,
    Running,
    Sliding,
    Jumping,
    Falling,
    KnockedOut,
}

/// Mathematical model of the state machine: the current variant's tag
/// and the physics context it wraps.
pub ghost struct MachineView {
    pub state: StateTag,
    pub ctx: CtxView,
}

/// The events the machine reacts to. Pairs outside the transition
/// table are no-ops: the event is ignored and the state unchanged.
#[derive(Clone, Copy, Debug, PartialEq, Eq, Structural)]
pub enum Event {
    Run,
    Slide,
    Update,
    Jump,
    KnockOut,
    Land(i16),
}

/// The character state machine: exactly one variant is current at any
/// time, and transitions replace it wholesale.
#[derive(Clone, Copy, Debug)]
pub enum RedHatBoyStateMachine {
    Idle(RedHatBoyState<Idle>),
    Running(RedHatBoyState<Running>),
    Sliding(RedHatBoyState<Sliding>),
    Jumping(RedHatBoyState<Jumping>),
    Falling(RedHatBoyState<Falling>),
    KnockedOut(RedHatBoyState<KnockedOut>),
}

impl View for RedHatBoyStateMachine {
    type V = MachineView;

    open spec fn view(&self) -> MachineView {
        match self {
            RedHatBoyStateMachine::Idle(s) => MachineView { state: StateTag::Idle, ctx: s.ctx@ },
            RedHatBoyStateMachine::Running(s) => MachineView { state: StateTag::Running, ctx: s.ctx@ },
            RedHatBoyStateMachine::Sliding(s) => MachineView { state: StateTag::Sliding, ctx: s.ctx@ },
            RedHatBoyStateMachine::Jumping(s) => MachineView { state: StateTag::Jumping, ctx: s.ctx@ },
            RedHatBoyStateMachine::Falling(s) => MachineView { state: StateTag::Falling, ctx: s.ctx@ },
            RedHatBoyStateMachine::KnockedOut(s) => MachineView { state: StateTag::KnockedOut, ctx: s.ctx@ },
        }
    }
}

/// The frame count of the animation cycle a state plays.
pub open spec fn spec_frame_count(s: StateTag) -> int {
    match s {
        StateTag::Idle => IDLE_FRAMES as int,
        StateTag::Running => RUN_FRAMES as int,
        StateTag::Sliding => SLIDING_FRAMES as int,
        StateTag::Jumping => JUMPING_FRAMES as int,
        StateTag::Falling => FALLING_FRAMES as int,
        StateTag::KnockedOut => FALLING_FRAMES as int,
    }
}

/// The whole transition table, including each state's per-tick update
/// behaviour; pairs not listed leave the state unchanged.
pub open spec fn spec_transition(m: MachineView, event: Event) -> MachineView {
    match (m.state, event) {
        (StateTag::Idle, Event::Run) => (MachineView {
            state: StateTag::Running,
            ctx: spec_run_right(spec_reset_frame(m.ctx)),
        }),
        (StateTag::Running, Event::Slide) => (MachineView {
            state: StateTag::Sliding,
            ctx: spec_reset_frame(m.ctx),
        }),
        (StateTag::Running, Event::Jump) => (MachineView {
            state: StateTag::Jumping,
            ctx: spec_set_vertical_velocity(spec_reset_frame(m.ctx), JUMP_SPEED as int),
        }),
        (StateTag::Running, Event::KnockOut) => (MachineView {
            state: StateTag::Falling,
            ctx: spec_stop(spec_reset_frame(m.ctx)),
        }),
        (StateTag::Sliding, Event::KnockOut) => (MachineView {
            state: StateTag::Falling,
            ctx: spec_stop(spec_reset_frame(m.ctx)),
        }),
        (StateTag::Jumping, Event::KnockOut) => (MachineView {
            state: StateTag::Falling,
            ctx: spec_stop(spec_reset_frame(m.ctx)),
        }),
        (StateTag::Running, Event::Land(p)) => (MachineView {
            state: StateTag::Running,
            ctx: spec_set_on(m.ctx, p as int),
        }),
        (StateTag::Sliding, Event::Land(p)) => (MachineView {
            state: StateTag::Running,
            ctx: spec_set_on(m.ctx, p as int),
        }),
        (StateTag::Jumping, Event::Land(p)) => (MachineView {
            state: StateTag::Running,
            ctx: spec_set_on(spec_reset_frame(m.ctx), p as int),
        }),
        (StateTag::Idle, Event::Update) => (MachineView {
            state: StateTag::Idle,
            ctx: spec_update_ctx(m.ctx, IDLE_FRAMES as int),
        }),
        (StateTag::Running, Event::Update) => (MachineView {
            state: StateTag::Running,
            ctx: spec_update_ctx(m.ctx, RUN_FRAMES as int),
        }),
        (StateTag::Sliding, Event::Update) => ({
            let c = spec_update_ctx(m.ctx, SLIDING_FRAMES as int);
            if c.frame >= SLIDING_FRAMES as int {
                MachineView { state: StateTag::Running, ctx: spec_reset_frame(c) }
            } else {
                MachineView { state: StateTag::Sliding, ctx: c }
            }
        }),
        (StateTag::Jumping, Event::Update) => ({
            let c = spec_update_ctx(m.ctx, JUMPING_FRAMES as int);
            if c.position.y >= FLOOR as int {
                MachineView { state: StateTag::Running, ctx: spec_set_on(spec_reset_frame(c), HEIGHT as int) }
            } else {
                MachineView { state: StateTag::Jumping, ctx: c }
            }
        }),
        (StateTag::Falling, Event::Update) => ({
            let c = spec_update_ctx(m.ctx, FALLING_FRAMES as int);
            if c.frame >= FALLING_FRAMES as int {
                MachineView { state: StateTag::KnockedOut, ctx: c }
            } else {
                MachineView { state: StateTag::Falling, ctx: c }
            }
        }),
        _ => m,
    }
}

/// The machine limits under which a transition's arithmetic stays
/// within the fixed-width integers.
pub open spec fn transition_requires(m: MachineView, event: Event) -> bool {
    match event {
        Event::Run => m.state == StateTag::Idle ==> m.ctx.velocity.x + RUNNING_SPEED as int <= i16::MAX,
        Event::Update => m.state != StateTag::KnockedOut ==> update_fits(m.ctx),
        Event::Land(p) => i16::MIN + PLAYER_HEIGHT as int <= p as int,
        _ => true,
    }
}

impl RedHatBoyStateMachine {
    /// Applies one event; see `spec_transition` for the full table.
    pub fn transition(self, event: Event) -> (r: Self)
        requires
            transition_requires(self@, event),
        ensures
            r@ == spec_transition(self@, event),
    {
        match self {
            RedHatBoyStateMachine::Idle(state) => match event {
                Event::Run => RedHatBoyStateMachine::Running(state.run()),
                Event::Update => RedHatBoyStateMachine::Idle(state.update()),
                _ => self,
            },
            RedHatBoyStateMachine::Running(state) => match event {
                Event::Slide => RedHatBoyStateMachine::Sliding(state.slide()),
                Event::Jump => RedHatBoyStateMachine::Jumping(state.jump()),
                Event::KnockOut => RedHatBoyStateMachine::Falling(state.knock_out()),
                Event::Land(p) => RedHatBoyStateMachine::Running(state.land_on(p)),
                Event::Update => RedHatBoyStateMachine::Running(state.update()),
                _ => self,
            },
            RedHatBoyStateMachine::Sliding(state) => match event {
                Event::KnockOut => RedHatBoyStateMachine::Falling(state.knock_out()),
                Event::Land(p) => RedHatBoyStateMachine::Running(state.land_on(p)),
                Event::Update => match state.update() {
                    SlidingEndState::Running(s) => RedHatBoyStateMachine::Running(s),
                    SlidingEndState::Sliding(s) => RedHatBoyStateMachine::Sliding(s),
                },
                _ => self,
            },
            RedHatBoyStateMachine::Jumping(state) => match event {
                Event::KnockOut => RedHatBoyStateMachine::Falling(state.knock_out()),
                Event::Land(p) => RedHatBoyStateMachine::Running(state.land_on(p)),
                Event::Update => match state.update() {
                    JumpingEndState::Landing(s) => RedHatBoyStateMachine::Running(s),
                    JumpingEndState::Jumping(s) => RedHatBoyStateMachine::Jumping(s),
                },
                _ => self,
            },
            RedHatBoyStateMachine::Falling(state) => match event {
                Event::Update => match state.update() {
                    FallingEndState::KnockedOut(s) => RedHatBoyStateMachine::KnockedOut(s),
                    FallingEndState::Falling(s) => RedHatBoyStateMachine::Falling(s),
                },
                _ => self,
            },
            RedHatBoyStateMachine::KnockedOut(_) => self,
        }
    }

    pub fn update(self) -> (r: Self)
        requires
            transition_requires(self@, Event::Update),
        ensures
            r@ == spec_transition(self@, Event::Update),
    {
        self.transition(Event::Update)
    }

    /// The animation the current state plays.
    pub fn frame_name(&self) -> (r: &'static str)
        ensures
            r@ == spec_animation_name(spec_animation(self@.state)),
    {
        match self {
            RedHatBoyStateMachine::Idle(state) => state.frame_name(),
            RedHatBoyStateMachine::Running(state) => state.frame_name(),
            RedHatBoyStateMachine::Sliding(state) => state.frame_name(),
            RedHatBoyStateMachine::Jumping(state) => state.frame_name(),
            RedHatBoyStateMachine::Falling(state) => state.frame_name(),
            RedHatBoyStateMachine::KnockedOut(state) => state.frame_name(),
        }
    }

    pub fn context(&self) -> (r: &RedHatBoyContext)
        ensures
            r@ == self@.ctx,
    {
        match self {
            RedHatBoyStateMachine::Idle(state) => state.context(),
            RedHatBoyStateMachine::Running(state) => state.context(),
            RedHatBoyStateMachine::Sliding(state) => state.context(),
            RedHatBoyStateMachine::Jumping(state) => state.context(),
            RedHatBoyStateMachine::Falling(state) => state.context(),
            RedHatBoyStateMachine::KnockedOut(state) => state.context(),
        }
    }

    pub fn knocked_out(&self) -> (r: bool)
        ensures
            r == (self@.state == StateTag::KnockedOut),
    {
        matches!(self, RedHatBoyStateMachine::KnockedOut(_))
    }
}

/// The animation each state plays.
pub open spec fn spec_animation(s: StateTag) -> Animation {
    match s {
        StateTag::Idle => Animation::Idle,
        StateTag::Running => Animation::Run,
        StateTag::Sliding => Animation::Slide,
        StateTag::Jumping => Animation::Jump,
        StateTag::Falling => Animation::Dead,
        StateTag::KnockedOut => Animation::Dead,
    }
}

/// The atlas key name of each animation.
pub open spec fn spec_animation_name(a: Animation) -> Seq<char> {
    match a {
        Animation::Idle => "Idle"@,
        Animation::Run => "Run"@,
        Animation::Slide => "Slide"@,
        Animation::Jump => "Jump"@,
        Animation::Dead => "Dead"@,
    }
}

/// How far the character can still descend before gravity turns the
/// vertical velocity around: the sum of the remaining negative
/// velocities after the impulse decays by one per tick.
pub open spec fn descent(vy: int) -> int
    decreases (if vy < 0 { -vy } else { 0 }),
{
    if vy < 0 {
        (-vy - 1) + descent(vy + 1)
    } else {
        0
    }
}

pub proof fn lemma_descent_nonneg(vy: int)
    ensures
        descent(vy) >= 0,
    decreases (if vy < 0 { -vy } else { 0 }),
{
    if vy < 0 {
        lemma_descent_nonneg(vy + 1);
    }
}

/// Well-formedness of a machine state: every state the game can reach
/// satisfies it, and it bounds the physics context away from the edges
/// of `i16`.
pub open spec fn boy_ok(m: MachineView) -> bool {
    &&& JUMP_SPEED as int <= m.ctx.velocity.y <= TERMINAL_VELOCITY as int
    &&& -420 <= m.ctx.position.y <= FLOOR as int
    &&& m.ctx.position.x == STARTING_POINT as int
    &&& 0 <= m.ctx.frame <= spec_frame_count(m.state)
    &&& match m.state {
        StateTag::Idle => m.ctx.velocity.x == 0 && m.ctx.velocity.y >= 0
            && m.ctx.position.y == FLOOR as int,
        StateTag::Running => m.ctx.velocity.x == RUNNING_SPEED as int && m.ctx.velocity.y >= 0
            && m.ctx.position.y >= -120,
        StateTag::Sliding => m.ctx.velocity.x == RUNNING_SPEED as int && m.ctx.velocity.y >= 0
            && m.ctx.position.y >= -120,
        StateTag::Jumping => m.ctx.velocity.x == RUNNING_SPEED as int
            && m.ctx.position.y >= -420 + descent(m.ctx.velocity.y),
        StateTag::Falling => m.ctx.velocity.x == 0 && m.ctx.velocity.y >= 0,
        StateTag::KnockedOut => m.ctx.velocity.x == 0 && m.ctx.velocity.y >= 0,
    }
}

/// Within the well-formed states, every transition's arithmetic fits;
/// a landing surface must only lie on screen.
pub proof fn lemma_boy_ok_transition_requires(m: MachineView, event: Event)
    requires
        boy_ok(m),
        event matches Event::Land(p) ==> p as int >= 0,
    ensures
        transition_requires(m, event),
{
}

/// The game only lands the character on a surface within the screen
/// and while it is moving downward.
pub open spec fn event_ok(m: MachineView, event: Event) -> bool {
    event matches Event::Land(p) ==> 0 <= p as int <= HEIGHT as int && m.ctx.velocity.y > 0
}

/// Every transition from a well-formed state under a game event leads
/// to a well-formed state.
pub proof fn lemma_transition_preserves_boy_ok(m: MachineView, event: Event)
    requires
        boy_ok(m),
        event_ok(m, event),
    ensures
        boy_ok(spec_transition(m, event)),
{
    assert(descent(JUMP_SPEED as int) == 300) by {
        reveal_with_fuel(descent, 27);
    }
    lemma_descent_nonneg(m.ctx.velocity.y);
    let r = spec_transition(m, event);
    lemma_descent_nonneg(r.ctx.velocity.y);
    if m.state == StateTag::Jumping && event == Event::Update {
        let vy = m.ctx.velocity.y;
        let c = spec_update_ctx(m.ctx, JUMPING_FRAMES as int);
        lemma_descent_nonneg(c.velocity.y);
        if vy < 0 {
            assert(descent(vy) == (-vy - 1) + descent(vy + 1));
        }
    }
}

/// For every (state, event) pair outside the transition table, the
/// transition is the identity on the state.
pub open spec fn spec_handles(s: StateTag, event: Event) -> bool {
    match event {
        Event::Run => s == StateTag::Idle,
        Event::Slide => s == StateTag::Running,
        Event::Jump => s == StateTag::Running,
        Event::KnockOut => s == StateTag::Running || s == StateTag::Sliding || s == StateTag::Jumping,
        Event::Land(_) => s == StateTag::Running || s == StateTag::Sliding || s == StateTag::Jumping,
        Event::Update => s != StateTag::KnockedOut,
    }
}

/// An event delivered to a state that does not handle it leaves the
/// state unchanged.
pub proof fn lemma_transition_no_op(m: MachineView, event: Event)
    requires
        !spec_handles(m.state, event),
    ensures
        spec_transition(m, event) == m,
{
}

/// The machine after `n` update ticks.
pub open spec fn spec_updates(m: MachineView, n: nat) -> MachineView
    decreases n,
{
    if n == 0 {
        m
    } else {
        spec_transition(spec_updates(m, (n - 1) as nat), Event::Update)
    }
}

/// From entry, sliding stands back up into Running after exactly
/// `SLIDING_FRAMES` update ticks, and not before.
pub proof fn lemma_sliding_duration(m: MachineView, n: nat)
    requires
        m.state == StateTag::Sliding,
        m.ctx.frame == 0,
        n <= SLIDING_FRAMES as nat,
    ensures
        n < SLIDING_FRAMES as nat ==> spec_updates(m, n).state == StateTag::Sliding
            && spec_updates(m, n).ctx.frame == n,
        n == SLIDING_FRAMES as nat ==> spec_updates(m, n).state == StateTag::Running,
    decreases n,
{
    if n > 0 {
        lemma_sliding_duration(m, (n - 1) as nat);
    }
}

/// While sliding, the input-driven events are ignored: only the tick
/// counter decides when the slide ends.
pub proof fn lemma_sliding_ignores_input(m: MachineView, event: Event)
    requires
        m.state == StateTag::Sliding,
        event == Event::Run || event == Event::Slide || event == Event::Jump,
    ensures
        spec_transition(m, event) == m,
{
    lemma_transition_no_op(m, event);
}

/// The machine state right after jumping from the floor.
pub open spec fn spec_jump_start() -> MachineView {
    MachineView {
        state: StateTag::Jumping,
        ctx: CtxView {
            frame: 0,
            position: PointView { x: STARTING_POINT as int, y: FLOOR as int },
            velocity: PointView { x: RUNNING_SPEED as int, y: JUMP_SPEED as int },
        },
    }
}

/// The machine stays Jumping for `k` further update ticks and lands
/// into Running on the tick after that.
pub open spec fn lands_after(m: MachineView, k: nat) -> bool
    decreases k,
{
    &&& m.state == StateTag::Jumping
    &&& if k == 0 {
            spec_transition(m, Event::Update).state == StateTag::Running
        } else {
            spec_transition(m, Event::Update).state == StateTag::Jumping
                && lands_after(spec_transition(m, Event::Update), (k - 1) as nat)
        }
}

/// A jump from the floor is airborne for exactly 50 ticks: the fixed
/// impulse and gravity make the tick count deterministic, and the 50th
/// update returns the character to Running with its feet on the floor.
#[verifier::spinoff_prover]
#[verifier::rlimit(100)]
proof fn lemma_jump_airborne_49()
    ensures
        lands_after(spec_jump_start(), 49),
{
    reveal_with_fuel(lands_after, 51);
}

/// Applying one more update first is the same as counting one more tick.
proof fn lemma_updates_shift(m: MachineView, n: nat)
    ensures
        spec_updates(m, n + 1) == spec_updates(spec_transition(m, Event::Update), n),
    decreases n,
{
    let next = spec_transition(m, Event::Update);
    if n == 0 {
        assert(spec_updates(m, 1) == spec_transition(spec_updates(m, 0), Event::Update));
        assert(spec_updates(next, 0) == next);
    } else {
        lemma_updates_shift(m, (n - 1) as nat);
        assert(spec_updates(m, n + 1) == spec_transition(spec_updates(m, n), Event::Update));
        assert(spec_updates(next, n) == spec_transition(spec_updates(next, (n - 1) as nat), Event::Update));
    }
}

/// A landing countdown of `k` means the `k + 1`st update tick reaches
/// Running with the character's feet on the floor.
proof fn lemma_lands_after_updates(m: MachineView, k: nat)
    requires
        lands_after(m, k),
    ensures
        spec_updates(m, k + 1).state == StateTag::Running,
        spec_updates(m, k + 1).ctx.position.y == FLOOR as int,
    decreases k,
{
    let next = spec_transition(m, Event::Update);
    lemma_updates_shift(m, k);
    if k == 0 {
        assert(spec_updates(next, 0) == next);
    } else {
        lemma_lands_after_updates(next, (k - 1) as nat);
    }
}

pub proof fn lemma_jump_airtime()
    ensures
        lands_after(spec_jump_start(), 49),
        spec_updates(spec_jump_start(), 50).state == StateTag::Running,
        spec_updates(spec_jump_start(), 50).ctx.position.y == FLOOR as int,
{
    lemma_jump_airborne_49();
    lemma_lands_after_updates(spec_jump_start(), 49);
}

/// A jumping update whose integrated position reaches the floor
/// returns the character to Running with its feet on the ground.
pub proof fn lemma_jumping_returns_to_running(m: MachineView)
    requires
        m.state == StateTag::Jumping,
        spec_update_ctx(m.ctx, JUMPING_FRAMES as int).position.y >= FLOOR as int,
    ensures
        spec_transition(m, Event::Update).state == StateTag::Running,
        spec_transition(m, Event::Update).ctx.position.y == FLOOR as int,
{
}

/// Inward margin of the collision box: taken off the left edge.
pub const X_OFFSET: i16 = 18;
/// Inward margin of the collision box: taken off the bottom edge.
pub const Y_OFFSET: i16 = 14;
/// Inward margin of the collision box: taken off the width.
pub const WIDTH_OFFSET: i16 = 28;

/// The largest 1-based frame index an animation's atlas keys reach, at
/// 3 ticks per sprite frame.
pub open spec fn spec_max_index(a: Animation) -> int {
    match a {
        Animation::Idle => IDLE_FRAMES as int / 3 + 1,
        Animation::Run => RUN_FRAMES as int / 3 + 1,
        Animation::Slide => SLIDING_FRAMES as int / 3 + 1,
        Animation::Jump => JUMPING_FRAMES as int / 3 + 1,
        Animation::Dead => FALLING_FRAMES as int / 3 + 1,
    }
}

/// A complete character atlas: every animation-frame key the machine
/// can ever ask for is present, with bounded entries. A key absent
/// from the atlas is a fatal configuration error, not a run-time
/// condition, so the lookup functions are only promised on complete
/// sheets.
pub open spec fn sheet_complete(s: Seq<SheetEntryView>) -> bool {
    forall|a: Animation, i: int|
        1 <= i <= spec_max_index(a)
            ==> ((#[trigger] spec_sheet_lookup(s, a, i)) matches Some(c) && cell_ok(c))
}

/// The 1-based atlas frame index the context currently shows.
pub open spec fn spec_frame_index(c: CtxView) -> int {
    c.frame / 3 + 1
}

/// Whether every key of one animation up to `max_index` is present
/// with a bounded entry.
fn check_animation_complete(sheet: &Sheet, animation: Animation, max_index: u8) -> (r: bool)
    requires
        max_index < 255,
    ensures
        r == forall|i: int|
            1 <= i <= max_index as int
                ==> ((#[trigger] spec_sheet_lookup(sheet@, animation, i)) matches Some(c) && cell_ok(c)),
{
    let mut i: u8 = 1;
    while i <= max_index
        invariant
            1 <= i <= max_index as int + 1,
            max_index < 255,
            forall|j: int|
                1 <= j < i as int
                    ==> ((#[trigger] spec_sheet_lookup(sheet@, animation, j)) matches Some(c) && cell_ok(c)),
        decreases max_index as int + 1 - i as int,
    {
        match sheet.get(animation, i) {
            Some(c) => {
                if !cell_ok_exec(&c) {
                    return false;
                }
            },
            None => {
                return false;
            },
        }
        i = i + 1;
    }
    true
}

/// Whether the atlas is complete in the sense of `sheet_complete`.
/// The host checks a freshly loaded atlas with this before handing it
/// to the game: an incomplete atlas means mismatched assets.
pub fn sheet_is_complete(sheet: &Sheet) -> (r: bool)
    ensures
        r == sheet_complete(sheet@),
{
    let ok = check_animation_complete(sheet, Animation::Idle, 10)
        && check_animation_complete(sheet, Animation::Run, 8)
        && check_animation_complete(sheet, Animation::Slide, 5)
        && check_animation_complete(sheet, Animation::Jump, 12)
        && check_animation_complete(sheet, Animation::Dead, 10);
    proof {
        if ok {
            assert forall|a: Animation, i: int| 1 <= i <= spec_max_index(a)
                implies (#[trigger] spec_sheet_lookup(sheet@, a, i)) matches Some(c) && cell_ok(c) by {
                match a {
                    Animation::Idle => {},
                    Animation::Run => {},
                    Animation::Slide => {},
                    Animation::Jump => {},
                    Animation::Dead => {},
                }
            }
        }
    }
    ok
}

/// Mathematical model of the character: the machine together with the
/// atlas contents.
pub ghost struct BoyView {
    pub machine: MachineView,
    pub sheet: Seq<SheetEntryView>,
}

/// The atlas cell under the character's current animation-frame key.
pub open spec fn spec_current_cell(b: BoyView) -> Option<CellView> {
    spec_sheet_lookup(b.sheet, spec_animation(b.machine.state), spec_frame_index(b.machine.ctx))
}

/// Where the current sprite is drawn on screen: the context's position
/// shifted by the sprite's padding offset, at the frame's size.
pub open spec fn spec_destination_box(c: CtxView, cell: CellView) -> RectView {
    RectView {
        x: c.position.x + cell.sprite_source_size.x,
        y: c.position.y + cell.sprite_source_size.y,
        width: cell.frame.width,
        height: cell.frame.height,
    }
}

/// The collision box: the destination box with the inward margin that
/// discounts sprite padding.
pub open spec fn spec_bounding_box(c: CtxView, cell: CellView) -> RectView {
    let d = spec_destination_box(c, cell);
    RectView {
        x: d.x + X_OFFSET as int,
        y: d.y,
        width: d.width - WIDTH_OFFSET as int,
        height: d.height - Y_OFFSET as int,
    }
}

/// A well-formed character: a reachable machine state and a complete atlas.
pub open spec fn boy_wf(b: BoyView) -> bool {
    &&& boy_ok(b.machine)
    &&& sheet_complete(b.sheet)
}

/// A well-formed character's current atlas key is always present.
pub proof fn lemma_current_cell_exists(b: BoyView)
    requires
        boy_wf(b),
    ensures
        spec_current_cell(b) matches Some(c) && cell_ok(c),
{
    let a = spec_animation(b.machine.state);
    let i = spec_frame_index(b.machine.ctx);
    assert(b.machine.ctx.frame <= spec_frame_count(b.machine.state));
    assert(1 <= i <= spec_max_index(a));
    assert(spec_sheet_lookup(b.sheet, a, i) matches Some(c) && cell_ok(c));
}

/// The player character: the state machine together with its sprite
/// atlas. The host keeps the spritesheet image and the audio handles;
/// the game only needs the atlas geometry.
pub struct RedHatBoy {
    state_machine: RedHatBoyStateMachine,
    sprite_sheet: Sheet,
}

impl View for RedHatBoy {
    type V = BoyView;

    closed spec fn view(&self) -> BoyView {
        BoyView { machine: self.state_machine@, sheet: self.sprite_sheet@ }
    }
}

/// The machine state a fresh character starts in.
pub open spec fn spec_initial_machine() -> MachineView {
    MachineView {
        state: StateTag::Idle,
        ctx: CtxView {
            frame: 0,
            position: PointView { x: STARTING_POINT as int, y: FLOOR as int },
            velocity: PointView { x: 0, y: 0 },
        },
    }
}

impl RedHatBoy {
    /// Every character the library hands out is well formed: its atlas
    /// is complete and its machine state is reachable.
    #[verifier::type_invariant]
    pub open spec fn type_inv(self) -> bool {
        boy_wf(self@)
    }

    pub fn new(sheet: Sheet) -> (r: Self)
        requires
            sheet_complete(sheet@),
        ensures
            r@.machine == spec_initial_machine(),
            r@.sheet == sheet@,
    {
        RedHatBoy {
            state_machine: RedHatBoyStateMachine::Idle(RedHatBoyState::<Idle>::new()),
            sprite_sheet: sheet,
        }
    }

    /// A fresh character with the same atlas, back at the start.
    pub fn reset(boy: Self) -> (r: Self)
        ensures
            r@.machine == spec_initial_machine(),
            r@.sheet == boy@.sheet,
    {
        proof {
            use_type_invariant(&boy);
        }
        RedHatBoy::new(boy.sprite_sheet)
    }

    /// The animation the current state plays.
    pub fn animation(&self) -> (r: Animation)
        ensures
            r == spec_animation(self@.machine.state),
    {
        match &self.state_machine {
            RedHatBoyStateMachine::Idle(_) => Animation::Idle,
            RedHatBoyStateMachine::Running(_) => Animation::Run,
            RedHatBoyStateMachine::Sliding(_) => Animation::Slide,
            RedHatBoyStateMachine::Jumping(_) => Animation::Jump,
            RedHatBoyStateMachine::Falling(_) => Animation::Dead,
            RedHatBoyStateMachine::KnockedOut(_) => Animation::Dead,
        }
    }

    /// The 1-based atlas frame index currently shown.
    pub fn frame_index(&self) -> (r: u8)
        ensures
            r as int == spec_frame_index(self@.machine.ctx),
    {
        self.state_machine.context().frame / 3 + 1
    }

    /// The atlas cell for the current animation frame, if the atlas
    /// holds it.
    pub fn current_sprite(&self) -> (r: Option<Cell>)
        ensures
            match r {
                Some(c) => spec_current_cell(self@) == Some(c@),
                None => spec_current_cell(self@) is None,
            },
    {
        self.sprite_sheet.get(self.animation(), self.frame_index())
    }

    /// Where the current sprite is drawn; see `spec_destination_box`.
    pub fn destination_box(&self) -> (r: Rect)
        ensures
            spec_current_cell(self@) matches Some(c) && r@ == spec_destination_box(self@.machine.ctx, c),
            r@.wf(),
    {
        proof {
            use_type_invariant(self);
            lemma_current_cell_exists(self@);
        }
        let sprite = match self.current_sprite() {
            Some(c) => c,
            None => unreached(),
        };
        let ctx = self.state_machine.context();
        Rect::new_from_x_y(
            ctx.position.x + sprite.sprite_source_size.x,
            ctx.position.y + sprite.sprite_source_size.y,
            sprite.frame.w,
            sprite.frame.h,
        )
    }

    /// The collision box; see `spec_bounding_box`.
    pub fn bounding_box(&self) -> (r: Rect)
        ensures
            spec_current_cell(self@) matches Some(c) && r@ == spec_bounding_box(self@.machine.ctx, c),
            r@.wf(),
    {
        proof {
            use_type_invariant(self);
            lemma_current_cell_exists(self@);
        }
        let mut bounding_box = self.destination_box();
        bounding_box.set_x(bounding_box.x() + X_OFFSET);
        bounding_box.width = bounding_box.width - WIDTH_OFFSET;
        bounding_box.height = bounding_box.height - Y_OFFSET;
        bounding_box
    }

    /// The horizontal speed the world scrolls against.
    pub fn walking_speed(&self) -> (r: i16)
        ensures
            r as int == self@.machine.ctx.velocity.x,
    {
        self.state_machine.context().velocity.x
    }

    pub fn pos_y(&self) -> (r: i16)
        ensures
            r as int == self@.machine.ctx.position.y,
    {
        self.state_machine.context().position.y
    }

    pub fn velocity_y(&self) -> (r: i16)
        ensures
            r as int == self@.machine.ctx.velocity.y,
    {
        self.state_machine.context().velocity.y
    }

    pub fn knocked_out(&self) -> (r: bool)
        ensures
            r == (self@.machine.state == StateTag::KnockedOut),
    {
        self.state_machine.knocked_out()
    }

    /// Whether the machine is currently in the Running state.
    pub fn is_running(&self) -> (r: bool)
        ensures
            r == (self@.machine.state == StateTag::Running),
    {
        matches!(self.state_machine, RedHatBoyStateMachine::Running(_))
    }

    pub fn update(&mut self)
        ensures
            final(self)@.machine == spec_transition(old(self)@.machine, Event::Update),
            final(self)@.sheet == old(self)@.sheet,
    {
        self.apply(Event::Update);
    }

    pub fn run_right(&mut self)
        ensures
            final(self)@.machine == spec_transition(old(self)@.machine, Event::Run),
            final(self)@.sheet == old(self)@.sheet,
    {
        self.apply(Event::Run);
    }

    pub fn slide(&mut self)
        ensures
            final(self)@.machine == spec_transition(old(self)@.machine, Event::Slide),
            final(self)@.sheet == old(self)@.sheet,
    {
        self.apply(Event::Slide);
    }

    pub fn jump(&mut self)
        ensures
            final(self)@.machine == spec_transition(old(self)@.machine, Event::Jump),
            final(self)@.sheet == old(self)@.sheet,
    {
        self.apply(Event::Jump);
    }

    pub fn knock_out(&mut self)
        ensures
            final(self)@.machine == spec_transition(old(self)@.machine, Event::KnockOut),
            final(self)@.sheet == old(self)@.sheet,
    {
        self.apply(Event::KnockOut);
    }

    /// Lands the character with its feet on a surface at `position`.
    /// The game only lands on surfaces within the screen and while the
    /// character moves downward.
    pub fn land_on(&mut self, position: i16)
        requires
            0 <= position as int <= HEIGHT as int,
            old(self)@.machine.ctx.velocity.y > 0,
        ensures
            final(self)@.machine == spec_transition(old(self)@.machine, Event::Land(position)),
            final(self)@.sheet == old(self)@.sheet,
    {
        self.apply(Event::Land(position));
    }

    /// Applies one event to the machine, within the well-formed states.
    fn apply(&mut self, event: Event)
        requires
            event_ok(old(self)@.machine, event),
        ensures
            final(self)@.machine == spec_transition(old(self)@.machine, event),
            final(self)@.sheet == old(self)@.sheet,
    {
        proof {
            use_type_invariant(&*self);
            lemma_boy_ok_transition_requires(self@.machine, event);
            lemma_transition_preserves_boy_ok(self@.machine, event);
        }
        self.state_machine = self.state_machine.transition(event);
    }
}

} // verus!
