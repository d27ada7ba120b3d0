//! The fixed-timestep loop driver: it accumulates elapsed real time
//! and drains exactly one simulation tick per fixed time quantum, so
//! the simulation rate is independent of the display refresh rate.
//!
//! Time is measured in sixtieths of a millisecond, so the quantum of
//! 1000/60 milliseconds is the exact integer 1000. The host converts
//! its timestamps by multiplying milliseconds by 60.

use vstd::prelude::*;
use crate::walk::{GameView, KeyState, UpdateEffects, WalkTheDog, machine_post, no_effects};

verus! {

/// One simulation tick lasts this many sixtieths of a millisecond:
/// 1000/60 milliseconds.
pub const FRAME_SIZE: u64 = 1000;

/// The actions of two ticks merged: an action is requested if either
/// tick requested it.
pub open spec fn spec_merge_effects(a: UpdateEffects, b: UpdateEffects) -> UpdateEffects {
    UpdateEffects {
        play_jump_sound: a.play_jump_sound || b.play_jump_sound,
        show_new_game_button: a.show_new_game_button || b.show_new_game_button,
        hide_overlay: a.hide_overlay || b.hide_overlay,
    }
}

/// What one game update does: one run-state machine tick when the game
/// is initialized, and nothing otherwise.
pub open spec fn one_tick_post(g0: Option<GameView>, k: KeyState, g1: Option<GameView>, e: UpdateEffects) -> bool {
    match g0 {
        Some(v0) => g1 matches Some(v1) && machine_post(v0, k, v1, e),
        None => g1 is None && e == no_effects(),
    }
}

/// The game after `n` updates under one sampled input: a chain of `n`
/// single ticks, with the requested actions merged along the way.
pub open spec fn spec_ticks_post(g0: Option<GameView>, k: KeyState, n: nat, g1: Option<GameView>, e: UpdateEffects) -> bool
    decreases n,
{
    if n == 0 {
        g1 == g0 && e == no_effects()
    } else {
        exists|gm: Option<GameView>, em: UpdateEffects, et: UpdateEffects|
            #![trigger one_tick_post(gm, k, g1, et), spec_merge_effects(em, et)]
            spec_ticks_post(g0, k, (n - 1) as nat, gm, em)
                && one_tick_post(gm, k, g1, et)
                && e == spec_merge_effects(em, et)
    }
}

/// One more tick extends a chain of ticks.
proof fn lemma_ticks_post_step(
    g0: Option<GameView>,
    k: KeyState,
    n: nat,
    gm: Option<GameView>,
    em: UpdateEffects,
    g1: Option<GameView>,
    et: UpdateEffects,
)
    requires
        spec_ticks_post(g0, k, n, gm, em),
        one_tick_post(gm, k, g1, et),
    ensures
        spec_ticks_post(g0, k, (n + 1) as nat, g1, spec_merge_effects(em, et)),
{
    assert((((n + 1) as nat) - 1) as nat == n);
    // Name the witness terms the chain's quantifier triggers on.
    assert(one_tick_post(gm, k, g1, et));
    assert(spec_merge_effects(em, et) == spec_merge_effects(em, et));
}

/// The loop driver's state: the last timestamp seen and the real time
/// not yet consumed by ticks.
pub struct GameLoop {
    pub last_frame: u64,
    pub accumulated_delta: u64,
}

impl GameLoop {
    /// A driver starting at the given timestamp with an empty
    /// accumulator.
    pub fn new(now: u64) -> (r: GameLoop)
        ensures
            r.last_frame == now,
            r.accumulated_delta == 0,
    {
        GameLoop { last_frame: now, accumulated_delta: 0 }
    }

    /// One display-refresh callback at timestamp `now`: the elapsed
    /// time joins the accumulator, and one game update runs for each
    /// full quantum in it, all with the same sampled input. Returns
    /// how many ticks ran and the host actions they requested, merged.
    ///
    /// The tick count is pinned by the returned accumulator arithmetic:
    /// what remains is at most one quantum, and positive if any tick
    /// ran. The game itself ends where that many machine ticks take it.
    pub fn frame(&mut self, now: u64, game: &mut WalkTheDog, keystate: &KeyState) -> (r: (u64, UpdateEffects))
        requires
            old(self).last_frame <= now,
            old(self).accumulated_delta + (now - old(self).last_frame) <= u64::MAX,
        ensures
            final(self).last_frame == now,
            final(self).accumulated_delta <= FRAME_SIZE,
            old(self).accumulated_delta + (now - old(self).last_frame)
                == final(self).accumulated_delta + r.0 * FRAME_SIZE,
            r.0 > 0 ==> final(self).accumulated_delta > 0,
            spec_ticks_post(old(game)@, *keystate, r.0 as nat, final(game)@, r.1),
    {
        self.accumulated_delta = self.accumulated_delta + (now - self.last_frame);
        self.last_frame = now;
        let mut ticks: u64 = 0;
        let mut effects = UpdateEffects {
            play_jump_sound: false,
            show_new_game_button: false,
            hide_overlay: false,
        };
        let ghost start_delta = self.accumulated_delta as int;
        let ghost game0 = game@;
        proof {
            assert(game0 == old(game)@);
            assert(effects == no_effects());
        }
        while self.accumulated_delta > FRAME_SIZE
            invariant
                start_delta == self.accumulated_delta + ticks * FRAME_SIZE,
                start_delta <= u64::MAX,
                self.last_frame == now,
                ticks > 0 ==> self.accumulated_delta > 0,
                spec_ticks_post(game0, *keystate, ticks as nat, game@, effects),
            decreases self.accumulated_delta,
        {
            let ghost game_before = game@;
            let ghost effects_before = effects;
            let tick_effects = game.update(keystate);
            effects = merge_effects(effects, tick_effects);
            proof {
                assert(one_tick_post(game_before, *keystate, game@, tick_effects));
                lemma_ticks_post_step(
                    game0,
                    *keystate,
                    ticks as nat,
                    game_before,
                    effects_before,
                    game@,
                    tick_effects,
                );
                assert((ticks as nat + 1) as nat == (ticks + 1) as nat);
            }
            self.accumulated_delta = self.accumulated_delta - FRAME_SIZE;
            ticks = ticks + 1;
        }
        (ticks, effects)
    }
}

/// Host actions requested by any of a frame's ticks; see
/// `spec_merge_effects`.
fn merge_effects(a: UpdateEffects, b: UpdateEffects) -> (r: UpdateEffects)
    ensures
        r == spec_merge_effects(a, b),
{
    UpdateEffects {
        play_jump_sound: a.play_jump_sound || b.play_jump_sound,
        show_new_game_button: a.show_new_game_button || b.show_new_game_button,
        hide_overlay: a.hide_overlay || b.hide_overlay,
    }
}

} // verus!
