//! The world orchestrator: the character, two looping background
//! layers, the live obstacle set, the timeline cursor marking the
//! rightmost generated content, and the run state machine around them.

use vstd::prelude::*;
use rand::Rng;
use crate::geometry::{Point, PointView, RectView};
use crate::sprite::{SpriteSheet, TileEntryView, sprite_sheet_ok};
use crate::boy::{
    RedHatBoy, BoyView, MachineView, StateTag, Event, spec_transition, spec_initial_machine,
    boy_ok, HEIGHT,
};
use crate::obstacle::{
    Image, Obstacle, ObstacleView, PlatformView, spec_check_obstacle, spec_move_obstacle, spec_obstacle_right,
    spec_obstacle_move_fits, obstacle_wf, spec_right_most_box, spec_shift_box, shift_boxes,
};
use crate::segment::{
    stone_and_platform, platform_and_stone, segment_ok, obstacle_boxes, obstacle_bounds,
    is_stone_and_platform, is_platform_and_stone, tile_sheet_complete,
    SEGMENT_EXTENT, MAX_STONE_WIDTH, STONE_ON_GROUND,
};

verus! {

/// Content is generated ahead whenever the timeline cursor falls below
/// this look-ahead threshold.
pub const TIMELINE_MINIMUM: i16 = 1000;
/// Gap left between one segment's content and the next.
pub const OBSTACLE_BUFFER: i16 = 20;
/// The timeline cursor never leaves this range.
pub const TIMELINE_MAXIMUM: i16 = 2500;
/// How far one obstacle's boxes may spread left of its right edge.
pub const OBSTACLE_SPREAD: i16 = 1400;
/// Background layers are at least this wide, so at most one layer can
/// wrap per tick, and at most this wide, so positions stay in `i16`.
pub const MIN_BACKGROUND_WIDTH: i16 = 4;
pub const MAX_BACKGROUND_WIDTH: i16 = 16000;

/// The pressed state of the keys the game reacts to, sampled once per
/// tick, together with the one-shot new-game signal from the host's
/// restart control.
#[derive(Clone, Copy, Debug, PartialEq, Eq, Structural)]
pub struct KeyState {
    pub right: bool,
    pub down: bool,
    pub space: bool,
    pub new_game: bool,
}

impl KeyState {
    /// No key pressed, no signal.
    pub fn new() -> (r: KeyState)
        ensures
            r == (KeyState { right: false, down: false, space: false, new_game: false }),
    {
        KeyState { right: false, down: false, space: false, new_game: false }
    }
}

/// The input-driven events of one tick, in the order they are applied:
/// space asks for a jump, then down asks for a slide. States that do
/// not handle an event ignore it.
pub open spec fn spec_apply_input(m: MachineView, k: KeyState) -> MachineView {
    let m1 = if k.space {
        spec_transition(m, Event::Jump)
    } else {
        m
    };
    if k.down {
        spec_transition(m1, Event::Slide)
    } else {
        m1
    }
}

/// The obstacles that stay live: those whose right edge has not yet
/// scrolled past the left viewport edge. A right edge of exactly 0 is
/// retained.
pub open spec fn spec_retained(obs: Seq<ObstacleView>) -> Seq<ObstacleView>
    decreases obs.len(),
{
    if obs.len() == 0 {
        Seq::empty()
    } else {
        let rest = spec_retained(obs.drop_first());
        if spec_obstacle_right(obs[0]) >= 0 {
            seq![obs[0]] + rest
        } else {
            rest
        }
    }
}

/// All obstacles scrolled by `dx`.
pub open spec fn spec_move_all(obs: Seq<ObstacleView>, dx: int) -> Seq<ObstacleView> {
    obs.map_values(|o: ObstacleView| spec_move_obstacle(o, dx))
}

/// Every live obstacle's intersection check applied to the character,
/// in order.
pub open spec fn spec_check_all(obs: Seq<ObstacleView>, b: BoyView) -> MachineView
    decreases obs.len(),
{
    if obs.len() == 0 {
        b.machine
    } else {
        let m1 = spec_check_obstacle(obs[0], b);
        spec_check_all(obs.drop_first(), BoyView { machine: m1, sheet: b.sheet })
    }
}

/// Checking one more obstacle after a sequence of checks.
pub proof fn lemma_check_all_push(obs: Seq<ObstacleView>, o: ObstacleView, b: BoyView)
    ensures
        spec_check_all(obs.push(o), b)
            == spec_check_obstacle(o, BoyView { machine: spec_check_all(obs, b), sheet: b.sheet }),
    decreases obs.len(),
{
    reveal_with_fuel(spec_check_all, 3);
    if obs.len() == 0 {
        assert(obs.push(o)[0] == o);
        assert(obs.push(o).drop_first() =~= Seq::<ObstacleView>::empty());
        assert(b == (BoyView { machine: spec_check_all(obs, b), sheet: b.sheet }));
    } else {
        assert(obs.push(o)[0] == obs[0]);
        assert(obs.push(o).drop_first() =~= obs.drop_first().push(o));
        let m1 = spec_check_obstacle(obs[0], b);
        let b1 = BoyView { machine: m1, sheet: b.sheet };
        lemma_check_all_push(obs.drop_first(), o, b1);
        assert(spec_check_all(obs.push(o), b) == spec_check_all(obs.drop_first().push(o), b1));
        assert(spec_check_all(obs, b) == spec_check_all(obs.drop_first(), b1));
        assert(b1.sheet == b.sheet);
    }
}

/// The largest right edge among a set of obstacles; 0 for none.
pub open spec fn spec_right_most_obstacles(obs: Seq<ObstacleView>) -> int
    decreases obs.len(),
{
    if obs.len() == 0 {
        0
    } else if obs.len() == 1 {
        spec_obstacle_right(obs[0])
    } else {
        let rest = spec_right_most_obstacles(obs.drop_last());
        let r = spec_obstacle_right(obs.last());
        if r > rest {
            r
        } else {
            rest
        }
    }
}

/// The largest right edge lies between the bounds of all of them.
pub proof fn lemma_right_most_obstacles_bounds(obs: Seq<ObstacleView>, lo: int, hi: int)
    requires
        obs.len() >= 1,
        forall|k: int| 0 <= k < obs.len() ==> lo <= #[trigger] spec_obstacle_right(obs[k]) <= hi,
    ensures
        lo <= spec_right_most_obstacles(obs) <= hi,
    decreases obs.len(),
{
    if obs.len() > 1 {
        lemma_right_most_obstacles_bounds(obs.drop_last(), lo, hi);
    }
}

/// A box's right edge never exceeds the sequence's largest.
pub proof fn lemma_right_most_box_ge(boxes: Seq<RectView>, k: int)
    requires
        0 <= k < boxes.len(),
    ensures
        boxes[k].right() <= spec_right_most_box(boxes),
    decreases boxes.len(),
{
    if boxes.len() > 1 && k < boxes.len() - 1 {
        lemma_right_most_box_ge(boxes.drop_last(), k);
    }
}

/// Shifting all boxes shifts the largest right edge with them.
pub proof fn lemma_right_most_box_shift(boxes: Seq<RectView>, dx: int)
    requires
        boxes.len() >= 1,
    ensures
        spec_right_most_box(shift_boxes(boxes, dx)) == spec_right_most_box(boxes) + dx,
    decreases boxes.len(),
{
    let shifted = shift_boxes(boxes, dx);
    if boxes.len() == 1 {
        assert(shifted.len() == 1);
        assert(shifted[0] == spec_shift_box(boxes[0], dx));
    } else {
        lemma_right_most_box_shift(boxes.drop_last(), dx);
        assert(shifted.drop_last() =~= shift_boxes(boxes.drop_last(), dx));
        assert(shifted.last() == spec_shift_box(boxes.last(), dx));
    }
}

/// An obstacle as the walk keeps it: well formed, its right edge within
/// the world band, and every box within a bounded spread left of that
/// edge.
pub open spec fn obstacle_in_walk(o: ObstacleView) -> bool {
    &&& obstacle_wf(o)
    &&& obstacle_boxes(o).len() >= 1
    &&& -3 <= spec_obstacle_right(o) <= TIMELINE_MAXIMUM as int
    &&& forall|a: int| 0 <= a < obstacle_boxes(o).len()
        ==> spec_obstacle_right(o) - OBSTACLE_SPREAD as int <= (#[trigger] obstacle_boxes(o)[a]).x
            && obstacle_boxes(o)[a].right() <= spec_obstacle_right(o)
    &&& (o matches ObstacleView::Platform(p)
        ==> spec_obstacle_right(o) - OBSTACLE_SPREAD as int <= p.position.x <= TIMELINE_MAXIMUM as int)
}

/// Mathematical model of the world.
pub ghost struct WalkView {
    pub boy: BoyView,
    pub first_background: RectView,
    pub second_background: RectView,
    pub obstacles: Seq<ObstacleView>,
    pub obstacle_sheet: Seq<TileEntryView>,
    pub stone_width: int,
    pub stone_height: int,
    pub timeline: int,
}

/// The world: character, background layers, live obstacles, the shared
/// tile sheet, the stone sprite's size, and the timeline cursor.
pub struct Walk {
    pub boy: RedHatBoy,
    pub first_background: Image,
    pub second_background: Image,
    pub obstacles: Vec<Obstacle>,
    pub obstacle_sheet: SpriteSheet,
    pub stone_width: i16,
    pub stone_height: i16,
    pub timeline: i16,
}

/// The views of a sequence of obstacles.
pub open spec fn obstacle_views(s: Seq<Obstacle>) -> Seq<ObstacleView> {
    s.map_values(|o: Obstacle| o@)
}

impl View for Walk {
    type V = WalkView;

    open spec fn view(&self) -> WalkView {
        WalkView {
            boy: self.boy@,
            first_background: self.first_background@,
            second_background: self.second_background@,
            obstacles: obstacle_views(self.obstacles@),
            obstacle_sheet: self.obstacle_sheet@,
            stone_width: self.stone_width as int,
            stone_height: self.stone_height as int,
            timeline: self.timeline as int,
        }
    }
}

/// Well-formedness of the world, preserved by every tick: a bounded
/// stone sprite, a well-formed tile sheet, two equal-width background
/// layers of which one is anchored at the other's right edge, live
/// obstacles within the world band, and the timeline cursor in range.
pub open spec fn walk_wf(w: WalkView) -> bool {
    &&& sprite_sheet_ok(w.obstacle_sheet)
    &&& tile_sheet_complete(w.obstacle_sheet)
    &&& 0 < w.stone_width <= MAX_STONE_WIDTH as int
    &&& 0 < w.stone_height <= HEIGHT as int - STONE_ON_GROUND as int
    &&& w.first_background.wf()
    &&& w.second_background.wf()
    &&& w.first_background.width == w.second_background.width
    &&& MIN_BACKGROUND_WIDTH as int <= w.first_background.width <= MAX_BACKGROUND_WIDTH as int
    &&& (w.second_background.x == w.first_background.x + w.first_background.width
        || w.first_background.x == w.second_background.x + w.first_background.width)
    &&& -(w.first_background.width + 3) <= w.first_background.x <= w.first_background.width
    &&& -(w.first_background.width + 3) <= w.second_background.x <= w.first_background.width
    &&& 0 <= w.timeline <= TIMELINE_MAXIMUM as int
    &&& forall|k: int| 0 <= k < w.obstacles.len() ==> obstacle_in_walk(#[trigger] w.obstacles[k])
}

/// Relies on rand's `thread_rng` and `Rng::gen_range`: a uniform draw
/// from `0..count`, which lies below `count` for a non-empty range.
#[verifier::external_body]
fn random_below(count: u32) -> (r: u32)
    requires
        1 <= count,
    ensures
        r < count,
{
    rand::thread_rng().gen_range(0..count)
}

/// The largest right edge among the live obstacles; 0 for none.
pub fn right_most(obstacle_list: &Vec<Obstacle>) -> (r: i16)
    requires
        forall|k: int| 0 <= k < obstacle_list@.len()
            ==> obstacle_wf(#[trigger] obstacle_views(obstacle_list@)[k]),
    ensures
        r as int == spec_right_most_obstacles(obstacle_views(obstacle_list@)),
{
    let ghost views = obstacle_views(obstacle_list@);
    if obstacle_list.len() == 0 {
        return 0;
    }
    proof {
        assert(views[0] == obstacle_list@[0]@);
    }
    let mut best: i16 = obstacle_list[0].right();
    let mut k: usize = 1;
    proof {
        assert(views.take(1) =~= seq![views[0]]);
    }
    while k < obstacle_list.len()
        invariant
            1 <= k <= obstacle_list.len(),
            views == obstacle_views(obstacle_list@),
            forall|j: int| 0 <= j < views.len() ==> obstacle_wf(#[trigger] views[j]),
            best as int == spec_right_most_obstacles(views.take(k as int)),
        decreases obstacle_list.len() - k,
    {
        proof {
            assert(views.take(k as int + 1).drop_last() =~= views.take(k as int));
            assert(views.take(k as int + 1).last() == views[k as int]);
            assert(views[k as int] == obstacle_list@[k as int]@);
        }
        let r = obstacle_list[k].right();
        if r > best {
            best = r;
        }
        k = k + 1;
    }
    proof {
        assert(views.take(k as int) =~= views);
    }
    best
}

/// A scrolled obstacle that was still on screen stays in the walk's
/// band, and its right edge moves with it.
pub proof fn lemma_move_obstacle_in_walk(o: ObstacleView, dx: int)
    requires
        obstacle_in_walk(o),
        spec_obstacle_right(o) >= 0,
        -3 <= dx <= 0,
    ensures
        spec_obstacle_move_fits(o, dx),
        obstacle_in_walk(spec_move_obstacle(o, dx)),
        spec_obstacle_right(spec_move_obstacle(o, dx)) == spec_obstacle_right(o) + dx,
        obstacle_boxes(spec_move_obstacle(o, dx)) =~= shift_boxes(obstacle_boxes(o), dx),
{
    let moved = spec_move_obstacle(o, dx);
    match o {
        ObstacleView::Platform(p) => {
            let q = PlatformView {
                bounding_boxes: shift_boxes(p.bounding_boxes, dx),
                sprites: p.sprites,
                position: PointView { x: p.position.x + dx, y: p.position.y },
            };
            assert(moved == ObstacleView::Platform(q));
            assert(obstacle_boxes(o) == p.bounding_boxes);
            assert(obstacle_boxes(moved) == q.bounding_boxes);
            lemma_right_most_box_shift(p.bounding_boxes, dx);
            assert(spec_obstacle_right(moved) == spec_obstacle_right(o) + dx);
            assert forall|a: int| 0 <= a < p.bounding_boxes.len()
                implies crate::obstacle::box_ok(#[trigger] q.bounding_boxes[a])
                    && i16::MIN <= p.bounding_boxes[a].x + dx <= i16::MAX
                    && spec_obstacle_right(moved) - OBSTACLE_SPREAD as int <= q.bounding_boxes[a].x
                    && q.bounding_boxes[a].right() <= spec_obstacle_right(moved) by {
                assert(p.bounding_boxes[a] == obstacle_boxes(o)[a]);
                assert(crate::obstacle::box_ok(p.bounding_boxes[a]));
                assert(q.bounding_boxes[a] == spec_shift_box(p.bounding_boxes[a], dx));
            }
            assert(crate::obstacle::platform_wf(q));
        },
        ObstacleView::Barrier(r) => {
            assert(obstacle_boxes(moved) =~= seq![spec_shift_box(r, dx)]);
            assert(obstacle_boxes(moved) =~= shift_boxes(obstacle_boxes(o), dx));
            assert(obstacle_boxes(o)[0] == r);
        },
    }
}

/// The largest right edge of boxes all bounded alike is bounded alike.
pub proof fn lemma_right_most_box_bounds(boxes: Seq<RectView>, lo: int, hi: int)
    requires
        boxes.len() >= 1,
        forall|k: int| 0 <= k < boxes.len() ==> lo <= (#[trigger] boxes[k]).right() <= hi,
    ensures
        lo <= spec_right_most_box(boxes) <= hi,
    decreases boxes.len(),
{
    if boxes.len() > 1 {
        lemma_right_most_box_bounds(boxes.drop_last(), lo, hi);
    }
}

/// A freshly generated segment placed within the look-ahead window
/// lies in the walk's band, with its content right of the offset.
pub proof fn lemma_segment_in_walk(obs: Seq<ObstacleView>, offset: int)
    requires
        segment_ok(obs, offset),
        0 <= offset <= TIMELINE_MINIMUM as int + OBSTACLE_BUFFER as int,
    ensures
        forall|k: int| 0 <= k < obs.len()
            ==> obstacle_in_walk(#[trigger] obs[k])
                && offset <= spec_obstacle_right(obs[k]) <= offset + SEGMENT_EXTENT as int,
{
    assert forall|k: int| 0 <= k < obs.len()
        implies obstacle_in_walk(#[trigger] obs[k])
            && offset <= spec_obstacle_right(obs[k]) <= offset + SEGMENT_EXTENT as int by {
        let o = obs[k];
        assert(o == obs[0] || o == obs[1]);
        assert(obstacle_wf(o));
        assert(obstacle_bounds(o, offset, offset + SEGMENT_EXTENT as int));
        let boxes = obstacle_boxes(o);
        assert forall|a: int| 0 <= a < boxes.len()
            implies offset <= (#[trigger] boxes[a]).right() <= offset + SEGMENT_EXTENT as int by {
            assert(crate::obstacle::box_ok(boxes[a]));
            assert(boxes[a].right() >= boxes[a].x >= offset);
        }
        lemma_right_most_box_bounds(boxes, offset, offset + SEGMENT_EXTENT as int);
        assert forall|a: int| 0 <= a < boxes.len()
            implies spec_obstacle_right(o) - OBSTACLE_SPREAD as int <= (#[trigger] boxes[a]).x
                && boxes[a].right() <= spec_obstacle_right(o) by {
            lemma_right_most_box_ge(boxes, a);
        }
    }
}

/// The live obstacles after garbage collection by visibility: exactly
/// those whose right edge is still at or right of the viewport's left
/// edge, in order.
fn retained_obstacles(obstacles: Vec<Obstacle>) -> (r: Vec<Obstacle>)
    requires
        forall|k: int| 0 <= k < obstacles@.len()
            ==> obstacle_in_walk(#[trigger] obstacle_views(obstacles@)[k]),
    ensures
        obstacle_views(r@) =~= spec_retained(obstacle_views(obstacles@)),
        forall|k: int| 0 <= k < r@.len()
            ==> obstacle_in_walk(#[trigger] obstacle_views(r@)[k])
                && spec_obstacle_right(obstacle_views(r@)[k]) >= 0,
{
    let ghost orig = obstacle_views(obstacles@);
    let mut remaining = obstacles;
    let mut kept: Vec<Obstacle> = Vec::new();
    proof {
        assert(obstacle_views(remaining@) =~= orig.skip(0));
    }
    let ghost total = orig.len();
    while remaining.len() > 0
        invariant
            total == orig.len(),
            obstacle_views(remaining@) =~= orig.skip(total - remaining@.len()),
            remaining@.len() <= total,
            forall|k: int| 0 <= k < orig.len() ==> obstacle_in_walk(#[trigger] orig[k]),
            spec_retained(orig) =~= obstacle_views(kept@) + spec_retained(obstacle_views(remaining@)),
            forall|k: int| 0 <= k < kept@.len()
                ==> obstacle_in_walk(#[trigger] obstacle_views(kept@)[k])
                    && spec_obstacle_right(obstacle_views(kept@)[k]) >= 0,
        decreases remaining.len(),
    {
        let ghost i = total - remaining@.len();
        proof {
            assert(obstacle_views(remaining@)[0] == orig.skip(i)[0]);
            assert(orig.skip(i)[0] == orig[i]);
            assert(obstacle_views(remaining@)[0] == remaining@[0]@);
            assert(obstacle_views(remaining@).drop_first() =~= orig.skip(i + 1));
        }
        let o = remaining.remove(0);
        proof {
            assert(obstacle_views(remaining@) =~= orig.skip(i + 1));
        }
        if o.right() >= 0 {
            let ghost old_kept = obstacle_views(kept@);
            kept.push(o);
            proof {
                assert(obstacle_views(kept@) =~= old_kept.push(orig[i]));
                assert(obstacle_views(kept@) + spec_retained(orig.skip(i + 1))
                    =~= old_kept + (seq![orig[i]] + spec_retained(orig.skip(i + 1))));
            }
        }
    }
    proof {
        assert(obstacle_views(remaining@).len() == 0);
        assert(spec_retained(obstacle_views(remaining@)) =~= Seq::<ObstacleView>::empty());
        assert(spec_retained(orig) =~= obstacle_views(kept@));
    }
    kept
}

/// Scrolls every live obstacle leftward by the walking speed and runs
/// its intersection check against the character, in order.
fn move_and_check_obstacles(obstacles: &mut Vec<Obstacle>, boy: &mut RedHatBoy, velocity: i16)
    requires
        -3 <= velocity as int <= 0,
        forall|k: int| 0 <= k < old(obstacles)@.len()
            ==> obstacle_in_walk(#[trigger] obstacle_views(old(obstacles)@)[k])
                && spec_obstacle_right(obstacle_views(old(obstacles)@)[k]) >= 0,
    ensures
        obstacle_views(final(obstacles)@)
            =~= spec_move_all(obstacle_views(old(obstacles)@), velocity as int),
        final(boy)@.machine == spec_check_all(
            spec_move_all(obstacle_views(old(obstacles)@), velocity as int),
            old(boy)@,
        ),
        final(boy)@.sheet == old(boy)@.sheet,
        forall|k: int| 0 <= k < final(obstacles)@.len()
            ==> obstacle_in_walk(#[trigger] obstacle_views(final(obstacles)@)[k])
                && spec_obstacle_right(obstacle_views(final(obstacles)@)[k]) >= -3 + 0,
{
    let ghost orig = obstacle_views(old(obstacles)@);
    let ghost moved = spec_move_all(orig, velocity as int);
    let ghost b0 = old(boy)@;
    let mut i: usize = 0;
    proof {
        assert(moved.take(0) =~= Seq::<ObstacleView>::empty());
    }
    while i < obstacles.len()
        invariant
            0 <= i <= obstacles@.len(),
            obstacles@.len() == orig.len(),
            orig == obstacle_views(old(obstacles)@),
            moved == spec_move_all(orig, velocity as int),
            -3 <= velocity as int <= 0,
            forall|k: int| 0 <= k < orig.len()
                ==> obstacle_in_walk(#[trigger] orig[k]) && spec_obstacle_right(orig[k]) >= 0,
            forall|k: int| 0 <= k < i ==> obstacle_views(obstacles@)[k] == #[trigger] moved[k],
            forall|k: int| i <= k < orig.len()
                ==> obstacle_views(obstacles@)[k] == #[trigger] orig[k],
            boy@.sheet == b0.sheet,
            boy@.machine == spec_check_all(moved.take(i as int), b0),
        decreases obstacles.len() - i,
    {
        proof {
            assert(obstacle_views(obstacles@)[i as int] == obstacles@[i as int]@);
            assert(orig[i as int] == obstacles@[i as int]@);
            lemma_move_obstacle_in_walk(orig[i as int], velocity as int);
            assert(moved[i as int] == spec_move_obstacle(orig[i as int], velocity as int));
        }
        let ghost before = obstacles@;
        let obstacle = &mut obstacles[i];
        proof {
            assert(*obstacle == before[i as int]);
        }
        obstacle.move_horizontally(velocity);
        proof {
            assert(obstacles@[i as int]@ == moved[i as int]);
            assert(obstacle_in_walk(moved[i as int]));
        }
        let ghost boy_before = boy@;
        obstacles[i].check_intersection(boy);
        proof {
            assert(obstacles@[i as int]@ == moved[i as int]);
            lemma_check_all_push(moved.take(i as int), moved[i as int], b0);
            assert(moved.take(i as int).push(moved[i as int]) =~= moved.take(i as int + 1));
            assert(boy@.machine == spec_check_all(moved.take(i as int + 1), b0));
        }
        i = i + 1;
    }
    proof {
        assert(moved.take(orig.len() as int) =~= moved);
        assert(obstacle_views(obstacles@) =~= moved);
        assert forall|k: int| 0 <= k < obstacle_views(obstacles@).len()
            implies obstacle_in_walk(#[trigger] obstacle_views(obstacles@)[k])
                && spec_obstacle_right(obstacle_views(obstacles@)[k]) >= -3 by {
            lemma_move_obstacle_in_walk(orig[k], velocity as int);
        }
    }
}

/// The starting obstacle set every run begins with: the full
/// stone-then-platform template at offset 0, with the timeline cursor
/// at its right edge.
pub open spec fn starting_obstacles_ok(w: WalkView) -> bool {
    &&& is_stone_and_platform(w.obstacles, w.obstacle_sheet, w.stone_width, w.stone_height, 0)
    &&& w.timeline == spec_right_most_obstacles(w.obstacles)
}

/// The views of two concatenated obstacle vectors.
pub proof fn lemma_obstacle_views_concat(a: Seq<Obstacle>, b: Seq<Obstacle>)
    ensures
        obstacle_views(a + b) =~= obstacle_views(a) + obstacle_views(b),
{
    assert forall|k: int| 0 <= k < (a + b).len()
        implies obstacle_views(a + b)[k] == (obstacle_views(a) + obstacle_views(b))[k] by {
        if k < a.len() {
            assert((a + b)[k] == a[k]);
        } else {
            assert((a + b)[k] == b[k - a.len()]);
        }
    }
}

impl Walk {
    /// A fresh world: the character at its start, two background
    /// layers tiled side by side, and the starting obstacle set.
    pub fn new(
        boy: RedHatBoy,
        background_width: i16,
        background_height: i16,
        stone_width: i16,
        stone_height: i16,
        obstacle_sheet: SpriteSheet,
    ) -> (r: Walk)
        requires
            MIN_BACKGROUND_WIDTH as int <= background_width as int <= MAX_BACKGROUND_WIDTH as int,
            0 <= background_height as int <= 16000,
            0 < stone_width as int <= MAX_STONE_WIDTH as int,
            0 < stone_height as int <= HEIGHT as int - STONE_ON_GROUND as int,
            sprite_sheet_ok(obstacle_sheet@),
            tile_sheet_complete(obstacle_sheet@),
        ensures
            walk_wf(r@),
            r@.boy == boy@,
            r@.first_background == (RectView { x: 0, y: 0, width: background_width as int, height: background_height as int }),
            r@.second_background == (RectView { x: background_width as int, y: 0, width: background_width as int, height: background_height as int }),
            r@.obstacle_sheet == obstacle_sheet@,
            r@.stone_width == stone_width as int,
            r@.stone_height == stone_height as int,
            starting_obstacles_ok(r@),
            segment_ok(r@.obstacles, 0),
    {
        let starting_obstacles = stone_and_platform(stone_width, stone_height, &obstacle_sheet, 0);
        proof {
            lemma_segment_in_walk(obstacle_views(starting_obstacles@), 0);
        }
        let timeline = right_most(&starting_obstacles);
        proof {
            lemma_right_most_obstacles_bounds(obstacle_views(starting_obstacles@), 0, SEGMENT_EXTENT as int);
        }
        Walk {
            boy,
            first_background: Image::new(Point { x: 0, y: 0 }, background_width, background_height),
            second_background: Image::new(Point { x: background_width, y: 0 }, background_width, background_height),
            obstacles: starting_obstacles,
            obstacle_sheet,
            stone_width,
            stone_height,
            timeline,
        }
    }

    /// A new run in the same world: the character reset to its initial
    /// Idle state and the starting obstacles regenerated; the
    /// background layers are preserved.
    pub fn reset(walk: Self) -> (r: Walk)
        requires
            walk_wf(walk@),
        ensures
            walk_wf(r@),
            r@.boy.machine == spec_initial_machine(),
            r@.boy.sheet == walk@.boy.sheet,
            r@.first_background == walk@.first_background,
            r@.second_background == walk@.second_background,
            r@.obstacle_sheet == walk@.obstacle_sheet,
            r@.stone_width == walk@.stone_width,
            r@.stone_height == walk@.stone_height,
            starting_obstacles_ok(r@),
            segment_ok(r@.obstacles, 0),
    {
        let starting_obstacles = stone_and_platform(walk.stone_width, walk.stone_height, &walk.obstacle_sheet, 0);
        proof {
            lemma_segment_in_walk(obstacle_views(starting_obstacles@), 0);
        }
        let timeline = right_most(&starting_obstacles);
        proof {
            lemma_right_most_obstacles_bounds(obstacle_views(starting_obstacles@), 0, SEGMENT_EXTENT as int);
        }
        Walk {
            boy: RedHatBoy::reset(walk.boy),
            first_background: walk.first_background,
            second_background: walk.second_background,
            obstacles: starting_obstacles,
            obstacle_sheet: walk.obstacle_sheet,
            stone_width: walk.stone_width,
            stone_height: walk.stone_height,
            timeline,
        }
    }

    /// Whether the run has ended with the character knocked out.
    pub fn knocked_out(&self) -> (r: bool)
        ensures
            r == (self@.boy.machine.state == StateTag::KnockedOut),
    {
        self.boy.knocked_out()
    }

    /// How far the world scrolls per tick: the character's horizontal
    /// speed, negated, since forward progress scrolls the world left.
    pub fn velocity(&self) -> (r: i16)
        ensures
            r as int == -self@.boy.machine.ctx.velocity.x,
            -3 <= r as int <= 0,
    {
        proof {
            use_type_invariant(&self.boy);
        }
        let speed = self.boy.walking_speed();
        0 - speed
    }

    /// Extends the course: appends one of the layout templates, chosen
    /// uniformly at random, one buffer gap beyond the timeline cursor,
    /// and advances the cursor to the new content's right edge.
    pub fn generate_next_segment(&mut self)
        requires
            walk_wf(old(self)@),
            old(self)@.timeline < TIMELINE_MINIMUM as int,
        ensures
            walk_wf(final(self)@),
            final(self)@.boy == old(self)@.boy,
            final(self)@.first_background == old(self)@.first_background,
            final(self)@.second_background == old(self)@.second_background,
            final(self)@.obstacle_sheet == old(self)@.obstacle_sheet,
            final(self)@.stone_width == old(self)@.stone_width,
            final(self)@.stone_height == old(self)@.stone_height,
            final(self)@.obstacles.len() == old(self)@.obstacles.len() + 2,
            final(self)@.obstacles.take(old(self)@.obstacles.len() as int) =~= old(self)@.obstacles,
            segment_ok(
                final(self)@.obstacles.skip(old(self)@.obstacles.len() as int),
                old(self)@.timeline + OBSTACLE_BUFFER as int,
            ),
            final(self)@.timeline == spec_right_most_obstacles(
                final(self)@.obstacles.skip(old(self)@.obstacles.len() as int),
            ),
            is_stone_and_platform(
                final(self)@.obstacles.skip(old(self)@.obstacles.len() as int),
                old(self)@.obstacle_sheet,
                old(self)@.stone_width,
                old(self)@.stone_height,
                old(self)@.timeline + OBSTACLE_BUFFER as int,
            ) || is_platform_and_stone(
                final(self)@.obstacles.skip(old(self)@.obstacles.len() as int),
                old(self)@.obstacle_sheet,
                old(self)@.stone_width,
                old(self)@.stone_height,
                old(self)@.timeline + OBSTACLE_BUFFER as int,
            ),
    {
        let ghost old_vec = self.obstacles@;
        let ghost old_views = obstacle_views(self.obstacles@);
        let next_segment = random_below(2);
        let offset: i16 = self.timeline + OBSTACLE_BUFFER;
        let mut next_obstacles = match next_segment {
            0 => stone_and_platform(self.stone_width, self.stone_height, &self.obstacle_sheet, offset),
            1 => platform_and_stone(self.stone_width, self.stone_height, &self.obstacle_sheet, offset),
            _ => unreached(),
        };
        let ghost seg_views = obstacle_views(next_obstacles@);
        proof {
            lemma_segment_in_walk(seg_views, offset as int);
        }
        self.timeline = right_most(&next_obstacles);
        proof {
            lemma_right_most_obstacles_bounds(seg_views, offset as int, offset as int + SEGMENT_EXTENT as int);
        }
        let ghost seg_vec = next_obstacles@;
        self.obstacles.append(&mut next_obstacles);
        proof {
            lemma_obstacle_views_concat(old_vec, seg_vec);
            assert(obstacle_views(self.obstacles@) =~= old_views + seg_views);
            assert(obstacle_views(self.obstacles@).take(old_views.len() as int) =~= old_views);
            assert(obstacle_views(self.obstacles@).skip(old_views.len() as int) =~= seg_views);
            assert forall|k: int| 0 <= k < obstacle_views(self.obstacles@).len()
                implies obstacle_in_walk(#[trigger] obstacle_views(self.obstacles@)[k]) by {
                if k < old_views.len() {
                    assert(old_views[k] == old(self)@.obstacles[k]);
                    assert(obstacle_in_walk(old(self)@.obstacles[k]));
                    assert(obstacle_views(self.obstacles@)[k] == old_views[k]);
                } else {
                    assert(obstacle_in_walk(seg_views[k - old_views.len()]));
                    assert(obstacle_views(self.obstacles@)[k] == seg_views[k - old_views.len()]);
                }
            }
        }
    }
}

/// The background layers after one tick: both scrolled by `v`, then a
/// layer whose right edge has passed 0 is re-anchored at the other's
/// right edge, first layer first.
pub open spec fn spec_scroll_backgrounds(first: RectView, second: RectView, v: int) -> (RectView, RectView) {
    let f = spec_shift_box(first, v);
    let s = spec_shift_box(second, v);
    let f2 = if f.right() < 0 {
        RectView { x: s.right(), ..f }
    } else {
        f
    };
    let s2 = if s.right() < 0 {
        RectView { x: f2.right(), ..s }
    } else {
        s
    };
    (f2, s2)
}

/// The character after one walking tick: input events, one physics
/// update, then every retained and scrolled obstacle's intersection
/// check, in order.
pub open spec fn spec_walking_boy(w: WalkView, k: KeyState) -> MachineView {
    let m2 = spec_transition(spec_apply_input(w.boy.machine, k), Event::Update);
    let v = -m2.ctx.velocity.x;
    spec_check_all(
        spec_move_all(spec_retained(w.obstacles), v),
        BoyView { machine: m2, sheet: w.boy.sheet },
    )
}

/// Everything of the world except the character's machine state.
pub open spec fn walk_same_except_boy(a: WalkView, b: WalkView) -> bool {
    &&& a.first_background == b.first_background
    &&& a.second_background == b.second_background
    &&& a.obstacles == b.obstacles
    &&& a.obstacle_sheet == b.obstacle_sheet
    &&& a.stone_width == b.stone_width
    &&& a.stone_height == b.stone_height
    &&& a.timeline == b.timeline
    &&& a.boy.sheet == b.boy.sheet
}

/// What one walking tick does to the world. The appended segment, when
/// the look-ahead ran low, is one of the templates — which one is up
/// to the random draw, so only the segment invariants are stated.
pub open spec fn walking_post(w0: WalkView, k: KeyState, w1: WalkView, completed: bool) -> bool {
    let mb = spec_walking_boy(w0, k);
    let m2 = spec_transition(spec_apply_input(w0.boy.machine, k), Event::Update);
    let v = -m2.ctx.velocity.x;
    let bgs = spec_scroll_backgrounds(w0.first_background, w0.second_background, v);
    let moved = spec_move_all(spec_retained(w0.obstacles), v);
    &&& w1.boy.machine == mb
    &&& w1.boy.sheet == w0.boy.sheet
    &&& completed == (mb.state == StateTag::KnockedOut)
    &&& w1.first_background == bgs.0
    &&& w1.second_background == bgs.1
    &&& w1.obstacle_sheet == w0.obstacle_sheet
    &&& w1.stone_width == w0.stone_width
    &&& w1.stone_height == w0.stone_height
    &&& if w0.timeline < TIMELINE_MINIMUM as int {
            &&& w1.obstacles.len() == moved.len() + 2
            &&& w1.obstacles.take(moved.len() as int) == moved
            &&& segment_ok(w1.obstacles.skip(moved.len() as int), w0.timeline + OBSTACLE_BUFFER as int)
            &&& w1.timeline == spec_right_most_obstacles(w1.obstacles.skip(moved.len() as int))
            &&& (is_stone_and_platform(
                    w1.obstacles.skip(moved.len() as int),
                    w0.obstacle_sheet,
                    w0.stone_width,
                    w0.stone_height,
                    w0.timeline + OBSTACLE_BUFFER as int,
                ) || is_platform_and_stone(
                    w1.obstacles.skip(moved.len() as int),
                    w0.obstacle_sheet,
                    w0.stone_width,
                    w0.stone_height,
                    w0.timeline + OBSTACLE_BUFFER as int,
                ))
        } else {
            &&& w1.obstacles == moved
            &&& w1.timeline == w0.timeline + v
        }
}

/// An obstacle still on screen is kept by the garbage collection.
pub proof fn lemma_retained_keeps(obs: Seq<ObstacleView>, k: int)
    requires
        0 <= k < obs.len(),
        spec_obstacle_right(obs[k]) >= 0,
    ensures
        spec_retained(obs).contains(obs[k]),
    decreases obs.len(),
{
    if k == 0 {
        assert(spec_retained(obs)[0] == obs[0]);
    } else {
        lemma_retained_keeps(obs.drop_first(), k - 1);
        assert(obs.drop_first()[k - 1] == obs[k]);
        let rest = spec_retained(obs.drop_first());
        let j = choose|j: int| 0 <= j < rest.len() && rest[j] == obs[k];
        if spec_obstacle_right(obs[0]) >= 0 {
            assert(spec_retained(obs)[j + 1] == obs[k]);
        }
    }
}

/// Everything the garbage collection keeps is still on screen: its
/// right edge is at or right of 0. A right edge of exactly 0 is kept.
pub proof fn lemma_retained_only_keeps(obs: Seq<ObstacleView>, j: int)
    requires
        0 <= j < spec_retained(obs).len(),
    ensures
        spec_obstacle_right(spec_retained(obs)[j]) >= 0,
    decreases obs.len(),
{
    if obs.len() > 0 {
        if spec_obstacle_right(obs[0]) >= 0 {
            if j > 0 {
                lemma_retained_only_keeps(obs.drop_first(), j - 1);
            }
        } else {
            lemma_retained_only_keeps(obs.drop_first(), j);
        }
    }
}

/// While the character is in one of the moving states — Running,
/// Sliding or Jumping — its horizontal speed is exactly 3, it stays in
/// a moving state through the tick's input and physics, and the world
/// therefore scrolls at exactly 3 pixels per tick.
pub proof fn lemma_walking_scroll_speed(w: WalkView, k: KeyState)
    requires
        boy_ok(w.boy.machine),
        w.boy.machine.state == StateTag::Running
            || w.boy.machine.state == StateTag::Sliding
            || w.boy.machine.state == StateTag::Jumping,
    ensures
        ({
            let m2 = spec_transition(spec_apply_input(w.boy.machine, k), Event::Update);
            &&& (m2.state == StateTag::Running || m2.state == StateTag::Sliding
                || m2.state == StateTag::Jumping)
            &&& m2.ctx.velocity.x == 3
            &&& -m2.ctx.velocity.x == -3
        }),
{
    let m0 = w.boy.machine;
    let m1 = if k.space { spec_transition(m0, Event::Jump) } else { m0 };
    crate::boy::lemma_transition_preserves_boy_ok(m0, Event::Jump);
    let mi = spec_apply_input(m0, k);
    crate::boy::lemma_transition_preserves_boy_ok(m1, Event::Slide);
    crate::boy::lemma_transition_preserves_boy_ok(mi, Event::Update);
}

/// A world that differs only in the character's machine state is as
/// well formed as the one it came from.
pub proof fn lemma_walk_wf_except_boy(a: WalkView, b: WalkView)
    requires
        walk_wf(a),
        walk_same_except_boy(b, a),
    ensures
        walk_wf(b),
{
    assert forall|k: int| 0 <= k < b.obstacles.len()
        implies obstacle_in_walk(#[trigger] b.obstacles[k]) by {
        assert(b.obstacles[k] == a.obstacles[k]);
        assert(obstacle_in_walk(a.obstacles[k]));
    }
}

/// Marker for the run state waiting for the first rightward input.
#[derive(Clone, Copy, Debug)]
pub struct Ready;

/// Marker for the run state of an active run.
#[derive(Clone, Copy, Debug)]
pub struct Walking;

/// Marker for the run state after the character was knocked out,
/// waiting for the new-game signal.
#[derive(Clone, Copy, Debug)]
pub struct GameOver;

/// The world tagged by a run state marker.
pub struct WalkTheDogState<T> {
    pub walk: Walk,
    pub state: T,
}

/// Which run state the machine is in.
#[derive(Clone, Copy, Debug, PartialEq, Eq, Structural)]
pub enum RunTag {
    Ready,
    Walking,
    GameOver,
}

/// Mathematical model of the run state machine.
pub ghost struct GameView {
    pub run_state: RunTag,
    pub walk: WalkView,
}

/// A well-formed game: its world is well formed.
pub open spec fn machine_wf(g: GameView) -> bool {
    walk_wf(g.walk)
}

/// The actions one tick asks the host to perform: play the jump sound,
/// present the restart control, or take the restart control down.
#[derive(Clone, Copy, Debug, PartialEq, Eq, Structural)]
pub struct UpdateEffects {
    pub play_jump_sound: bool,
    pub show_new_game_button: bool,
    pub hide_overlay: bool,
}

/// No action requested.
pub open spec fn no_effects() -> UpdateEffects {
    UpdateEffects { play_jump_sound: false, show_new_game_button: false, hide_overlay: false }
}

/// What a ready-state tick ends in.
pub enum ReadyEndState {
    Complete(WalkTheDogState<Walking>),
    Continue(WalkTheDogState<Ready>),
}

/// What a walking tick ends in.
pub enum WalkingEndState {
    Complete(WalkTheDogState<GameOver>),
    Continue(WalkTheDogState<Walking>),
}

/// What a game-over tick ends in.
pub enum GameOverEndState {
    Complete(WalkTheDogState<Ready>),
    Continue(WalkTheDogState<GameOver>),
}

impl WalkTheDogState<Ready> {
    pub fn new(walk: Walk) -> (r: Self)
        ensures
            r.walk@ == walk@,
    {
        WalkTheDogState { walk, state: Ready }
    }

    /// Advances the character's animation; rightward input starts the
    /// run.
    pub fn update(self, keystate: &KeyState) -> (r: ReadyEndState)
        requires
            walk_wf(self.walk@),
        ensures
            ({
                let m2 = spec_transition(self.walk@.boy.machine, Event::Update);
                if keystate.right {
                    r matches ReadyEndState::Complete(s)
                        && walk_wf(s.walk@)
                        && walk_same_except_boy(s.walk@, self.walk@)
                        && s.walk@.boy.machine == spec_transition(m2, Event::Run)
                } else {
                    r matches ReadyEndState::Continue(s)
                        && walk_wf(s.walk@)
                        && walk_same_except_boy(s.walk@, self.walk@)
                        && s.walk@.boy.machine == m2
                }
            }),
    {
        let ghost w0 = self.walk@;
        let mut this = self;
        this.walk.boy.update();
        if keystate.right {
            let s = this.start_running();
            proof {
                lemma_walk_wf_except_boy(w0, s.walk@);
            }
            ReadyEndState::Complete(s)
        } else {
            proof {
                lemma_walk_wf_except_boy(w0, this.walk@);
            }
            ReadyEndState::Continue(this)
        }
    }

    fn start_running(self) -> (r: WalkTheDogState<Walking>)
        ensures
            r.walk@.boy.machine == spec_transition(self.walk@.boy.machine, Event::Run),
            walk_same_except_boy(r.walk@, self.walk@),
    {
        let mut this = self;
        this.walk.boy.run_right();
        WalkTheDogState { walk: this.walk, state: Walking }
    }
}

impl WalkTheDogState<Walking> {
    /// One simulation tick of an active run; see `walking_post`. The
    /// second component reports whether the jump sound should play:
    /// space was pressed while the character was running.
    pub fn update(self, keystate: &KeyState) -> (r: (WalkingEndState, bool))
        requires
            walk_wf(self.walk@),
        ensures
            ({
                let w1 = match r.0 {
                    WalkingEndState::Complete(s) => s.walk@,
                    WalkingEndState::Continue(s) => s.walk@,
                };
                &&& walk_wf(w1)
                &&& walking_post(self.walk@, *keystate, w1, r.0 is Complete)
                &&& r.1 == (keystate.space && self.walk@.boy.machine.state == StateTag::Running)
            }),
    {
        let ghost w0 = self.walk@;
        let mut this = self;
        let played_jump = keystate.space && this.walk.boy.is_running();
        if keystate.space {
            this.walk.boy.jump();
        }
        if keystate.down {
            this.walk.boy.slide();
        }
        this.walk.boy.update();
        let walking_speed = this.walk.velocity();
        this.walk.first_background.move_horizontally(walking_speed);
        this.walk.second_background.move_horizontally(walking_speed);
        if this.walk.first_background.right() < 0 {
            let x = this.walk.second_background.right();
            this.walk.first_background.set_x(x);
        }
        if this.walk.second_background.right() < 0 {
            let x = this.walk.first_background.right();
            this.walk.second_background.set_x(x);
        }
        let live = this.walk.obstacles;
        proof {
            assert forall|k: int| 0 <= k < live@.len()
                implies obstacle_in_walk(#[trigger] obstacle_views(live@)[k]) by {
                assert(obstacle_views(live@)[k] == w0.obstacles[k]);
                assert(obstacle_in_walk(w0.obstacles[k]));
            }
        }
        this.walk.obstacles = retained_obstacles(live);
        move_and_check_obstacles(&mut this.walk.obstacles, &mut this.walk.boy, walking_speed);
        if this.walk.timeline < TIMELINE_MINIMUM {
            this.walk.generate_next_segment();
        } else {
            this.walk.timeline = this.walk.timeline + walking_speed;
        }
        if this.walk.knocked_out() {
            (WalkingEndState::Complete(this.end_game()), played_jump)
        } else {
            (WalkingEndState::Continue(this), played_jump)
        }
    }

    /// Ends the run; the host is asked to present the restart control
    /// through the tick's effects.
    fn end_game(self) -> (r: WalkTheDogState<GameOver>)
        ensures
            r.walk@ == self.walk@,
    {
        WalkTheDogState { walk: self.walk, state: GameOver }
    }
}

impl WalkTheDogState<GameOver> {
    /// Waits for the one-shot new-game signal; on receipt the world is
    /// reset for a fresh run.
    pub fn update(self, keystate: &KeyState) -> (r: GameOverEndState)
        requires
            walk_wf(self.walk@),
        ensures
            ({
                if keystate.new_game {
                    r matches GameOverEndState::Complete(s)
                        && walk_wf(s.walk@)
                        && s.walk@.boy.machine == spec_initial_machine()
                        && s.walk@.boy.sheet == self.walk@.boy.sheet
                        && s.walk@.first_background == self.walk@.first_background
                        && s.walk@.second_background == self.walk@.second_background
                        && s.walk@.obstacle_sheet == self.walk@.obstacle_sheet
                        && s.walk@.stone_width == self.walk@.stone_width
                        && s.walk@.stone_height == self.walk@.stone_height
                        && starting_obstacles_ok(s.walk@)
                } else {
                    r matches GameOverEndState::Continue(s) && s.walk@ == self.walk@
                }
            }),
    {
        if keystate.new_game {
            GameOverEndState::Complete(self.new_game())
        } else {
            GameOverEndState::Continue(self)
        }
    }

    fn new_game(self) -> (r: WalkTheDogState<Ready>)
        requires
            walk_wf(self.walk@),
        ensures
            walk_wf(r.walk@),
            r.walk@.boy.machine == spec_initial_machine(),
            r.walk@.boy.sheet == self.walk@.boy.sheet,
            r.walk@.first_background == self.walk@.first_background,
            r.walk@.second_background == self.walk@.second_background,
            r.walk@.obstacle_sheet == self.walk@.obstacle_sheet,
            r.walk@.stone_width == self.walk@.stone_width,
            r.walk@.stone_height == self.walk@.stone_height,
            starting_obstacles_ok(r.walk@),
    {
        WalkTheDogState { walk: Walk::reset(self.walk), state: Ready }
    }
}

/// The run state machine: Ready, Walking, or GameOver, each wrapping
/// the world.
pub enum WalkTheDogStateMachine {
    Ready(WalkTheDogState<Ready>),
    Walking(WalkTheDogState<Walking>),
    GameOver(WalkTheDogState<GameOver>),
}

impl View for WalkTheDogStateMachine {
    type V = GameView;

    open spec fn view(&self) -> GameView {
        match self {
            WalkTheDogStateMachine::Ready(s) => GameView { run_state: RunTag::Ready, walk: s.walk@ },
            WalkTheDogStateMachine::Walking(s) => GameView { run_state: RunTag::Walking, walk: s.walk@ },
            WalkTheDogStateMachine::GameOver(s) => GameView { run_state: RunTag::GameOver, walk: s.walk@ },
        }
    }
}

/// What one tick of the run state machine does, and which actions it
/// asks of the host.
pub open spec fn machine_post(g0: GameView, k: KeyState, g1: GameView, e: UpdateEffects) -> bool {
    match g0.run_state {
        RunTag::Ready => {
            let m2 = spec_transition(g0.walk.boy.machine, Event::Update);
            &&& walk_same_except_boy(g1.walk, g0.walk)
            &&& if k.right {
                    g1.run_state == RunTag::Walking
                        && g1.walk.boy.machine == spec_transition(m2, Event::Run)
                } else {
                    g1.run_state == RunTag::Ready && g1.walk.boy.machine == m2
                }
            &&& e == no_effects()
        },
        RunTag::Walking => {
            &&& walking_post(g0.walk, k, g1.walk, g1.run_state == RunTag::GameOver)
            &&& g1.run_state == (if spec_walking_boy(g0.walk, k).state == StateTag::KnockedOut {
                    RunTag::GameOver
                } else {
                    RunTag::Walking
                })
            &&& e == (UpdateEffects {
                play_jump_sound: k.space && g0.walk.boy.machine.state == StateTag::Running,
                show_new_game_button: g1.run_state == RunTag::GameOver,
                hide_overlay: false,
            })
        },
        RunTag::GameOver => {
            if k.new_game {
                &&& g1.run_state == RunTag::Ready
                &&& g1.walk.boy.machine == spec_initial_machine()
                &&& g1.walk.boy.sheet == g0.walk.boy.sheet
                &&& g1.walk.first_background == g0.walk.first_background
                &&& g1.walk.second_background == g0.walk.second_background
                &&& g1.walk.obstacle_sheet == g0.walk.obstacle_sheet
                &&& g1.walk.stone_width == g0.walk.stone_width
                &&& g1.walk.stone_height == g0.walk.stone_height
                &&& starting_obstacles_ok(g1.walk)
                &&& e == (UpdateEffects { play_jump_sound: false, show_new_game_button: false, hide_overlay: true })
            } else {
                g1 == g0 && e == no_effects()
            }
        },
    }
}

impl WalkTheDogStateMachine {
    /// A fresh machine starts Ready.
    pub fn new(walk: Walk) -> (r: Self)
        ensures
            r@ == (GameView { run_state: RunTag::Ready, walk: walk@ }),
    {
        WalkTheDogStateMachine::Ready(WalkTheDogState::<Ready>::new(walk))
    }

    /// One tick; see `machine_post`.
    pub fn update(self, keystate: &KeyState) -> (r: (Self, UpdateEffects))
        requires
            machine_wf(self@),
        ensures
            machine_wf(r.0@),
            machine_post(self@, *keystate, r.0@, r.1),
    {
        match self {
            WalkTheDogStateMachine::Ready(state) => {
                let r = state.update(keystate);
                let next = match r {
                    ReadyEndState::Complete(walking) => WalkTheDogStateMachine::Walking(walking),
                    ReadyEndState::Continue(ready) => WalkTheDogStateMachine::Ready(ready),
                };
                (next, UpdateEffects { play_jump_sound: false, show_new_game_button: false, hide_overlay: false })
            },
            WalkTheDogStateMachine::Walking(state) => {
                let (r, played_jump) = state.update(keystate);
                match r {
                    WalkingEndState::Complete(game_over) => (
                        WalkTheDogStateMachine::GameOver(game_over),
                        UpdateEffects { play_jump_sound: played_jump, show_new_game_button: true, hide_overlay: false },
                    ),
                    WalkingEndState::Continue(walking) => (
                        WalkTheDogStateMachine::Walking(walking),
                        UpdateEffects { play_jump_sound: played_jump, show_new_game_button: false, hide_overlay: false },
                    ),
                }
            },
            WalkTheDogStateMachine::GameOver(state) => {
                let r = state.update(keystate);
                match r {
                    GameOverEndState::Complete(ready) => (
                        WalkTheDogStateMachine::Ready(ready),
                        UpdateEffects { play_jump_sound: false, show_new_game_button: false, hide_overlay: true },
                    ),
                    GameOverEndState::Continue(game_over) => (
                        WalkTheDogStateMachine::GameOver(game_over),
                        UpdateEffects { play_jump_sound: false, show_new_game_button: false, hide_overlay: false },
                    ),
                }
            },
        }
    }

    /// Whether the run has ended with the character knocked out.
    pub fn knocked_out(&self) -> (r: bool)
        ensures
            r == (self@.walk.boy.machine.state == StateTag::KnockedOut),
    {
        match self {
            WalkTheDogStateMachine::Ready(s) => s.walk.knocked_out(),
            WalkTheDogStateMachine::Walking(s) => s.walk.knocked_out(),
            WalkTheDogStateMachine::GameOver(s) => s.walk.knocked_out(),
        }
    }

    /// The world inside, for rendering.
    pub fn walk(&self) -> (r: &Walk)
        ensures
            r@ == self@.walk,
    {
        match self {
            WalkTheDogStateMachine::Ready(s) => &s.walk,
            WalkTheDogStateMachine::Walking(s) => &s.walk,
            WalkTheDogStateMachine::GameOver(s) => &s.walk,
        }
    }
}

/// The game as the host drives it: not yet initialized, or holding the
/// run state machine. Every value of this type is well formed, so the
/// host may call it without preconditions.
pub struct WalkTheDog {
    machine: Option<WalkTheDogStateMachine>,
}

impl View for WalkTheDog {
    type V = Option<GameView>;

    closed spec fn view(&self) -> Option<GameView> {
        match self.machine {
            Some(m) => Some(m@),
            None => None,
        }
    }
}

impl WalkTheDog {
    #[verifier::type_invariant]
    pub open spec fn type_inv(self) -> bool {
        self@ matches Some(g) ==> machine_wf(g)
    }

    /// A game waiting to be initialized by the host.
    pub fn new() -> (r: Self)
        ensures
            r@ is None,
    {
        WalkTheDog { machine: None }
    }

    /// The initialized game, Ready to run in the given world. The host
    /// calls this once its assets are loaded and converted.
    pub fn start(walk: Walk) -> (r: Self)
        requires
            walk_wf(walk@),
        ensures
            r@ == Some(GameView { run_state: RunTag::Ready, walk: walk@ }),
    {
        WalkTheDog { machine: Some(WalkTheDogStateMachine::new(walk)) }
    }

    /// One fixed tick: drains the machine through one update. Without
    /// initialization this does nothing.
    pub fn update(&mut self, keystate: &KeyState) -> (r: UpdateEffects)
        ensures
            match old(self)@ {
                Some(g0) => final(self)@ matches Some(g1) && machine_post(g0, *keystate, g1, r),
                None => final(self)@ is None && r == no_effects(),
            },
    {
        proof {
            use_type_invariant(&*self);
        }
        let mut machine = None;
        core::mem::swap(&mut machine, &mut self.machine);
        match machine {
            Some(m) => {
                let (next, effects) = m.update(keystate);
                self.machine = Some(next);
                effects
            },
            None => {
                self.machine = None;
                UpdateEffects { play_jump_sound: false, show_new_game_button: false, hide_overlay: false }
            },
        }
    }

    /// Whether the game is initialized.
    pub fn is_initialized(&self) -> (r: bool)
        ensures
            r == (self@ is Some),
    {
        self.machine.is_some()
    }

    /// Which run state the game is in, if initialized.
    pub fn run_state(&self) -> (r: Option<RunTag>)
        ensures
            match self@ {
                Some(g) => r == Some(g.run_state),
                None => r is None,
            },
    {
        match &self.machine {
            Some(WalkTheDogStateMachine::Ready(_)) => Some(RunTag::Ready),
            Some(WalkTheDogStateMachine::Walking(_)) => Some(RunTag::Walking),
            Some(WalkTheDogStateMachine::GameOver(_)) => Some(RunTag::GameOver),
            None => None,
        }
    }

    /// The world inside, for rendering.
    pub fn walk(&self) -> (r: Option<&Walk>)
        ensures
            match self@ {
                Some(g) => r matches Some(w) && w@ == g.walk,
                None => r is None,
            },
    {
        match &self.machine {
            Some(m) => Some(m.walk()),
            None => None,
        }
    }
}

} // verus!
