//! Obstacles and their collision resolution: platforms that can be
//! landed on from above, and barriers that knock the character out on
//! any contact.

use vstd::prelude::*;
use crate::geometry::{Point, PointView, Rect, RectView, spec_intersects};
use crate::sprite::{Cell, CellView, SpriteSheet, cell_ok, spec_tile_lookup};
use crate::boy::{
    RedHatBoy, BoyView, MachineView, Event, spec_transition, spec_bounding_box, spec_current_cell,
    HEIGHT,
};

verus! {

/// A host-loaded image's placement: the game tracks its bounding box,
/// the host keeps the pixels.
#[derive(Clone, Copy, Debug)]
pub struct Image {
    pub bounding_box: Rect,
}

impl View for Image {
    type V = RectView;

    open spec fn view(&self) -> RectView {
        self.bounding_box@
    }
}

impl Image {
    /// Places an image of the given size; the host supplies the size
    /// of the pixels it loaded.
    pub fn new(position: Point, width: i16, height: i16) -> (r: Image)
        ensures
            r@ == (RectView { x: position@.x, y: position@.y, width: width as int, height: height as int }),
    {
        Image { bounding_box: Rect::new(position, width, height) }
    }

    pub fn bounding_box(&self) -> (r: &Rect)
        ensures
            r@ == self@,
    {
        &self.bounding_box
    }

    pub fn move_horizontally(&mut self, distance: i16)
        requires
            i16::MIN <= old(self)@.x + distance as int <= i16::MAX,
        ensures
            final(self)@ == (RectView { x: old(self)@.x + distance as int, ..old(self)@ }),
    {
        let x = self.bounding_box.x() + distance;
        self.set_x(x);
    }

    pub fn set_x(&mut self, x: i16)
        ensures
            final(self)@ == (RectView { x: x as int, ..old(self)@ }),
    {
        self.bounding_box.set_x(x);
    }

    pub fn right(&self) -> (r: i16)
        requires
            i16::MIN <= self@.right() <= i16::MAX,
        ensures
            r as int == self@.right(),
    {
        self.bounding_box.right()
    }
}

/// An obstacle's box as the collision and scroll logic relies on it:
/// well formed, and lying within the screen band vertically, so a
/// landing surface is always a valid landing height.
pub open spec fn box_ok(r: RectView) -> bool {
    &&& r.wf()
    &&& 0 <= r.y
    &&& r.bottom() <= HEIGHT as int
}

/// A platform segment: one or more bounding boxes (one per visual
/// tile), the tile sprites to draw, and the draw position.
#[derive(Clone, Debug)]
pub struct Platform {
    bounding_boxes: Vec<Rect>,
    sprites: Vec<Cell>,
    position: Point,
}

/// Mathematical model of a `Platform`.
pub ghost struct PlatformView {
    pub bounding_boxes: Seq<RectView>,
    pub sprites: Seq<CellView>,
    pub position: PointView,
}

impl View for Platform {
    type V = PlatformView;

    closed spec fn view(&self) -> PlatformView {
        PlatformView {
            bounding_boxes: self.bounding_boxes@.map_values(|b: Rect| b@),
            sprites: self.sprites@.map_values(|c: Cell| c@),
            position: self.position@,
        }
    }
}

/// Every box and sprite of the platform is within bounds.
pub open spec fn platform_wf(p: PlatformView) -> bool {
    &&& forall|k: int| 0 <= k < p.bounding_boxes.len() ==> box_ok(#[trigger] p.bounding_boxes[k])
    &&& forall|k: int| 0 <= k < p.sprites.len() ==> cell_ok(#[trigger] p.sprites[k])
}

/// A box shifted horizontally.
pub open spec fn spec_shift_box(r: RectView, dx: int) -> RectView {
    RectView { x: r.x + dx, ..r }
}

/// All boxes shifted horizontally.
pub open spec fn shift_boxes(s: Seq<RectView>, dx: int) -> Seq<RectView> {
    s.map_values(|b: RectView| spec_shift_box(b, dx))
}

/// A box placed relative to a platform position.
pub open spec fn spec_place_box(r: RectView, position: PointView) -> RectView {
    RectView { x: r.x + position.x, y: r.y + position.y, ..r }
}

/// The first of the platform's boxes that the character's collision
/// box intersects, if any.
pub open spec fn spec_first_intersecting_box(boxes: Seq<RectView>, bb: RectView) -> Option<RectView>
    decreases boxes.len(),
{
    if boxes.len() == 0 {
        None
    } else if spec_intersects(bb, boxes[0]) {
        Some(boxes[0])
    } else {
        spec_first_intersecting_box(boxes.drop_first(), bb)
    }
}

/// Platform collision resolution. If a box intersects the character's
/// collision box: approaching from above — moving downward with the
/// character's top above the platform's top — lands the character on
/// that box; any other intersection knocks it out.
pub open spec fn spec_check_platform(p: PlatformView, b: BoyView) -> MachineView {
    match spec_current_cell(b) {
        Some(cell) => {
            let bb = spec_bounding_box(b.machine.ctx, cell);
            match spec_first_intersecting_box(p.bounding_boxes, bb) {
                Some(bx) => {
                    if b.machine.ctx.velocity.y > 0 && b.machine.ctx.position.y < p.position.y {
                        spec_transition(b.machine, Event::Land(bx.y as i16))
                    } else {
                        spec_transition(b.machine, Event::KnockOut)
                    }
                },
                None => b.machine,
            }
        },
        None => b.machine,
    }
}

/// The total width of a run of tiles.
pub open spec fn spec_total_width(s: Seq<CellView>) -> int
    decreases s.len(),
{
    if s.len() == 0 {
        0
    } else {
        s[0].frame.width + spec_total_width(s.drop_first())
    }
}

/// The total width splits at any point.
pub proof fn lemma_total_width_split(s: Seq<CellView>, i: int)
    requires
        0 <= i <= s.len(),
    ensures
        spec_total_width(s) == spec_total_width(s.take(i)) + spec_total_width(s.skip(i)),
    decreases i,
{
    if i == 0 {
        assert(s.take(0).len() == 0);
        assert(s.skip(0) =~= s);
    } else {
        lemma_total_width_split(s, i - 1);
        let pre = s.take(i);
        lemma_total_width_last(pre);
        assert(pre.drop_last() =~= s.take(i - 1));
        assert(pre.last() == s[i - 1]);
        assert(s.skip(i - 1)[0] == s[i - 1]);
        assert(s.skip(i - 1).drop_first() =~= s.skip(i));
    }
}

/// The total width of a non-empty run is the width of the last tile
/// plus the rest.
pub proof fn lemma_total_width_last(s: Seq<CellView>)
    requires
        s.len() >= 1,
    ensures
        spec_total_width(s) == spec_total_width(s.drop_last()) + s.last().frame.width,
    decreases s.len(),
{
    reveal_with_fuel(spec_total_width, 3);
    if s.len() == 1 {
        assert(s.drop_last().len() == 0);
        assert(s.drop_first().len() == 0);
    } else {
        lemma_total_width_last(s.drop_first());
        assert(s.drop_first().drop_last() =~= s.drop_last().drop_first());
        assert(s.drop_first().last() == s.last());
        assert(s.drop_last()[0] == s[0]);
        assert(s.drop_last().len() >= 1);
        assert(spec_total_width(s.drop_last())
            == s.drop_last()[0].frame.width + spec_total_width(s.drop_last().drop_first()));
    }
}

/// A suffix of non-negative widths has non-negative total width.
pub proof fn lemma_total_width_nonneg_from(p: PlatformView, i: int)
    requires
        0 <= i <= p.sprites.len(),
        forall|k: int| 0 <= k < p.sprites.len() ==> 0 <= (#[trigger] p.sprites[k]).frame.width,
    ensures
        0 <= spec_total_width(p.sprites.skip(i)),
    decreases p.sprites.len() - i,
{
    if i < p.sprites.len() {
        lemma_total_width_nonneg_from(p, i + 1);
        assert(p.sprites.skip(i)[0] == p.sprites[i]);
        assert(p.sprites.skip(i).drop_first() =~= p.sprites.skip(i + 1));
    }
}

/// Whether the draw positions stay within `i16`: non-negative tile
/// widths, with the full row reachable from the platform position.
pub open spec fn platform_draw_fits(p: PlatformView) -> bool {
    &&& spec_total_width(p.sprites) <= i16::MAX
    &&& p.position.x + spec_total_width(p.sprites) <= i16::MAX
    &&& forall|k: int| 0 <= k < p.sprites.len() ==> 0 <= (#[trigger] p.sprites[k]).frame.width
}

/// The views of a sequence of source and destination rectangles.
pub open spec fn draw_views(s: Seq<(Rect, Rect)>) -> Seq<(RectView, RectView)> {
    s.map_values(|p: (Rect, Rect)| (p.0@, p.1@))
}

/// The blits that draw a platform, relative to its position: each
/// tile's frame from the sheet, destinations laid left to right.
pub open spec fn spec_platform_draws(sprites: Seq<CellView>, position: PointView, acc: int) -> Seq<(RectView, RectView)>
    decreases sprites.len(),
{
    if sprites.len() == 0 {
        Seq::empty()
    } else {
        let c = sprites[0];
        seq![(c.frame, RectView { x: position.x + acc, y: position.y, width: c.frame.width, height: c.frame.height })]
            + spec_platform_draws(sprites.drop_first(), position, acc + c.frame.width)
    }
}

/// The largest right edge among a sequence of boxes; 0 for none.
pub open spec fn spec_right_most_box(boxes: Seq<RectView>) -> int
    decreases boxes.len(),
{
    if boxes.len() == 0 {
        0
    } else if boxes.len() == 1 {
        boxes[0].right()
    } else {
        let rest = spec_right_most_box(boxes.drop_last());
        let r = boxes.last().right();
        if r > rest {
            r
        } else {
            rest
        }
    }
}

impl Platform {
    /// Builds a platform at `position` from tile numbers looked up in
    /// the shared tile sheet and boxes given relative to the position.
    /// A tile number absent from the sheet is a fatal configuration
    /// error — mismatched assets — so every number must be present.
    pub fn new(sheet: &SpriteSheet, position: Point, sprite_ids: &Vec<u16>, bounding_boxes: &Vec<Rect>) -> (r: Platform)
        requires
            forall|k: int| 0 <= k < bounding_boxes@.len()
                ==> i16::MIN <= (#[trigger] bounding_boxes@[k])@.x + position@.x <= i16::MAX
                    && i16::MIN <= bounding_boxes@[k]@.y + position@.y <= i16::MAX,
            forall|k: int| 0 <= k < sprite_ids@.len()
                ==> spec_tile_lookup(sheet@, (#[trigger] sprite_ids@[k]) as int) is Some,
        ensures
            r@.position == position@,
            r@.bounding_boxes =~= bounding_boxes@.map_values(|b: Rect| b@).map_values(|b: RectView| spec_place_box(b, position@)),
            r@.sprites.len() == sprite_ids@.len(),
            forall|k: int| 0 <= k < sprite_ids@.len()
                ==> #[trigger] r@.sprites[k] == spec_tile_lookup(sheet@, sprite_ids@[k] as int)->Some_0,
    {
        let mut sprites: Vec<Cell> = Vec::new();
        let mut i: usize = 0;
        while i < sprite_ids.len()
            invariant
                0 <= i <= sprite_ids.len(),
                forall|k: int| 0 <= k < sprite_ids@.len()
                    ==> spec_tile_lookup(sheet@, (#[trigger] sprite_ids@[k]) as int) is Some,
                sprites@.len() == i,
                forall|k: int| 0 <= k < i
                    ==> #[trigger] sprites@[k]@ == spec_tile_lookup(sheet@, sprite_ids@[k] as int)->Some_0,
            decreases sprite_ids.len() - i,
        {
            match sheet.cell(sprite_ids[i]) {
                Some(c) => {
                    sprites.push(c);
                },
                None => {
                    proof {
                        assert(spec_tile_lookup(sheet@, sprite_ids@[i as int] as int) is Some);
                    }
                    unreached()
                },
            }
            i = i + 1;
        }

        let mut placed: Vec<Rect> = Vec::new();
        let mut j: usize = 0;
        while j < bounding_boxes.len()
            invariant
                0 <= j <= bounding_boxes.len(),
                forall|k: int| 0 <= k < bounding_boxes@.len()
                    ==> i16::MIN <= (#[trigger] bounding_boxes@[k])@.x + position@.x <= i16::MAX
                        && i16::MIN <= bounding_boxes@[k]@.y + position@.y <= i16::MAX,
                placed@.len() == j,
                forall|k: int| 0 <= k < j
                    ==> (#[trigger] placed@[k])@ == spec_place_box(bounding_boxes@[k]@, position@),
            decreases bounding_boxes.len() - j,
        {
            let b = &bounding_boxes[j];
            placed.push(Rect::new_from_x_y(
                b.x() + position.x,
                b.y() + position.y,
                b.width,
                b.height,
            ));
            j = j + 1;
        }
        Platform { bounding_boxes: placed, sprites, position }
    }

    pub fn bounding_boxes(&self) -> (r: &Vec<Rect>)
        ensures
            r@.map_values(|b: Rect| b@) == self@.bounding_boxes,
    {
        &self.bounding_boxes
    }

    pub fn position(&self) -> (r: Point)
        ensures
            r@ == self@.position,
    {
        self.position
    }

    pub fn sprites(&self) -> (r: &Vec<Cell>)
        ensures
            r@.map_values(|c: Cell| c@) == self@.sprites,
    {
        &self.sprites
    }

    /// The index of the first of the platform's boxes intersecting the
    /// given collision box, if any.
    fn first_intersecting_index(&self, bb: &Rect) -> (r: Option<usize>)
        requires
            platform_wf(self@),
            bb@.wf(),
        ensures
            match r {
                Some(i) => i < self@.bounding_boxes.len()
                    && spec_first_intersecting_box(self@.bounding_boxes, bb@)
                        == Some(self@.bounding_boxes[i as int]),
                None => spec_first_intersecting_box(self@.bounding_boxes, bb@) is None,
            },
    {
        let ghost boxes = self@.bounding_boxes;
        let mut i: usize = 0;
        proof {
            assert(boxes.skip(0) =~= boxes);
        }
        while i < self.bounding_boxes.len()
            invariant
                0 <= i <= self.bounding_boxes.len(),
                boxes == self@.bounding_boxes,
                platform_wf(self@),
                bb@.wf(),
                spec_first_intersecting_box(boxes, bb@)
                    == spec_first_intersecting_box(boxes.skip(i as int), bb@),
            decreases self.bounding_boxes.len() - i,
        {
            proof {
                assert(boxes.skip(i as int)[0] == boxes[i as int]);
                assert(boxes.skip(i as int).drop_first() =~= boxes.skip(i as int + 1));
            }
            if bb.intersects(&self.bounding_boxes[i]) {
                return Some(i);
            }
            i = i + 1;
        }
        proof {
            assert(boxes.skip(i as int).len() == 0);
        }
        None
    }

    /// The blits that draw the platform: each tile's frame as the
    /// source rectangle, and destinations laid left to right from the
    /// platform position at the tiles' own widths.
    pub fn draw_rects(&self) -> (r: Vec<(Rect, Rect)>)
        requires
            platform_draw_fits(self@),
        ensures
            draw_views(r@) =~= spec_platform_draws(self@.sprites, self@.position, 0),
    {
        let ghost views = self@.sprites;
        let mut result: Vec<(Rect, Rect)> = Vec::new();
        let mut x: i16 = 0;
        let mut i: usize = 0;
        proof {
            assert(views.skip(0) =~= views);
            assert(spec_total_width(views.take(0)) == 0);
            lemma_total_width_split(views, 0);
        }
        while i < self.sprites.len()
            invariant
                0 <= i <= self.sprites.len(),
                views == self@.sprites,
                platform_draw_fits(self@),
                x as int == spec_total_width(views.take(i as int)),
                x as int + spec_total_width(views.skip(i as int)) == spec_total_width(views),
                0 <= x as int,
                spec_platform_draws(views, self@.position, 0)
                    =~= draw_views(result@) + spec_platform_draws(views.skip(i as int), self@.position, x as int),
            decreases self.sprites.len() - i,
        {
            proof {
                assert(views.skip(i as int)[0] == views[i as int]);
                assert(views[i as int] == self.sprites@[i as int]@);
                assert(views.skip(i as int).drop_first() =~= views.skip(i as int + 1));
                lemma_total_width_nonneg_from(self@, i as int + 1);
                assert(views.take(i as int + 1).drop_last() =~= views.take(i as int));
                assert(views.take(i as int + 1).last() == views[i as int]);
                lemma_total_width_last(views.take(i as int + 1));
            }
            let sprite = &self.sprites[i];
            let source = Rect::new_from_x_y(
                sprite.frame.x,
                sprite.frame.y,
                sprite.frame.w,
                sprite.frame.h,
            );
            let destination = Rect::new_from_x_y(
                self.position.x + x,
                self.position.y,
                sprite.frame.w,
                sprite.frame.h,
            );
            let ghost before = result@;
            result.push((source, destination));
            proof {
                assert(draw_views(result@) =~= draw_views(before).push((source@, destination@)));
            }
            x = x + sprite.frame.w;
            i = i + 1;
        }
        proof {
            assert(views.skip(i as int).len() == 0);
        }
        result
    }

    /// Whether the platform's draw positions all stay within `i16`;
    /// the host checks this before asking for the blits.
    pub fn draw_fits(&self) -> (r: bool)
        ensures
            r == platform_draw_fits(self@),
    {
        let ghost views = self@.sprites;
        let mut t: i32 = 0;
        let mut i: usize = 0;
        proof {
            assert(spec_total_width(views.take(0)) == 0);
        }
        while i < self.sprites.len()
            invariant
                0 <= i <= self.sprites.len(),
                views == self@.sprites,
                t as int == spec_total_width(views.take(i as int)),
                0 <= t as int <= i16::MAX as int,
                forall|k: int| 0 <= k < i ==> 0 <= (#[trigger] views[k]).frame.width,
            decreases self.sprites.len() - i,
        {
            proof {
                assert(views[i as int] == self.sprites@[i as int]@);
                assert(views.take(i as int + 1).drop_last() =~= views.take(i as int));
                assert(views.take(i as int + 1).last() == views[i as int]);
                lemma_total_width_last(views.take(i as int + 1));
            }
            let w = self.sprites[i].frame.w;
            if w < 0 {
                return false;
            }
            t = t + w as i32;
            if t > i16::MAX as i32 {
                proof {
                    lemma_total_width_split(views, i as int + 1);
                    if forall|k: int| 0 <= k < views.len() ==> 0 <= (#[trigger] views[k]).frame.width {
                        lemma_total_width_nonneg_from(self@, i as int + 1);
                    }
                }
                return false;
            }
            i = i + 1;
        }
        proof {
            assert(views.take(i as int) =~= views);
        }
        self.position.x as i32 + t <= i16::MAX as i32
    }

    /// Resolves an intersection with the character, if there is one;
    /// see `spec_check_platform`.
    pub fn check_intersection(&self, boy: &mut RedHatBoy)
        requires
            platform_wf(self@),
        ensures
            final(boy)@.machine == spec_check_platform(self@, old(boy)@),
            final(boy)@.sheet == old(boy)@.sheet,
    {
        let bb = boy.bounding_box();
        match self.first_intersecting_index(&bb) {
            Some(i) => {
                if boy.velocity_y() > 0 && boy.pos_y() < self.position.y {
                    boy.land_on(self.bounding_boxes[i].y());
                } else {
                    boy.knock_out();
                }
            },
            None => {},
        }
    }

    /// Scrolls the platform and all its boxes horizontally.
    pub fn move_horizontally(&mut self, x: i16)
        requires
            i16::MIN <= old(self)@.position.x + x as int <= i16::MAX,
            forall|k: int| 0 <= k < old(self)@.bounding_boxes.len()
                ==> i16::MIN <= (#[trigger] old(self)@.bounding_boxes[k]).x + x as int <= i16::MAX,
        ensures
            final(self)@.position == (PointView { x: old(self)@.position.x + x as int, y: old(self)@.position.y }),
            final(self)@.bounding_boxes =~= shift_boxes(old(self)@.bounding_boxes, x as int),
            final(self)@.sprites == old(self)@.sprites,
    {
        self.position.x = self.position.x + x;
        let mut k: usize = 0;
        while k < self.bounding_boxes.len()
            invariant
                0 <= k <= self.bounding_boxes.len(),
                self.bounding_boxes@.len() == old(self)@.bounding_boxes.len(),
                self.position@ == (PointView { x: old(self)@.position.x + x as int, y: old(self)@.position.y }),
                self.sprites@ == old(self).sprites@,
                forall|j: int| 0 <= j < old(self)@.bounding_boxes.len()
                    ==> i16::MIN <= (#[trigger] old(self)@.bounding_boxes[j]).x + x as int <= i16::MAX,
                forall|j: int| 0 <= j < k
                    ==> (#[trigger] self.bounding_boxes@[j])@ == spec_shift_box(old(self)@.bounding_boxes[j], x as int),
                forall|j: int| k <= j < self.bounding_boxes@.len()
                    ==> (#[trigger] self.bounding_boxes@[j])@ == old(self)@.bounding_boxes[j],
            decreases self.bounding_boxes.len() - k,
        {
            let bx = self.bounding_boxes[k].x() + x;
            let b = &mut self.bounding_boxes[k];
            b.set_x(bx);
            k = k + 1;
        }
    }

    /// The largest right edge among the platform's boxes.
    pub fn right(&self) -> (r: i16)
        requires
            platform_wf(self@),
        ensures
            r as int == spec_right_most_box(self@.bounding_boxes),
    {
        let ghost boxes = self@.bounding_boxes;
        if self.bounding_boxes.len() == 0 {
            return 0;
        }
        proof {
            assert(box_ok(boxes[0]));
        }
        let mut best: i16 = self.bounding_boxes[0].right();
        let mut k: usize = 1;
        proof {
            assert(boxes.take(1) =~= seq![boxes[0]]);
        }
        while k < self.bounding_boxes.len()
            invariant
                1 <= k <= self.bounding_boxes.len(),
                boxes == self@.bounding_boxes,
                platform_wf(self@),
                best as int == spec_right_most_box(boxes.take(k as int)),
            decreases self.bounding_boxes.len() - k,
        {
            proof {
                assert(boxes.take(k as int + 1).drop_last() =~= boxes.take(k as int));
                assert(boxes.take(k as int + 1).last() == boxes[k as int]);
            }
            let r = self.bounding_boxes[k].right();
            if r > best {
                best = r;
            }
            k = k + 1;
        }
        proof {
            assert(boxes.take(k as int) =~= boxes);
        }
        best
    }
}

/// Platform collision resolution, as the run-time check resolves it.
/// With the character in one of the moving states and a box of the
/// platform intersecting its collision box: approaching from above —
/// moving downward, with the character's top above the platform's top
/// — lands the character Running with its feet on that box's surface;
/// any other intersection knocks it out into Falling.
pub proof fn lemma_platform_resolution(p: PlatformView, b: BoyView)
    requires
        b.machine.state == crate::boy::StateTag::Running
            || b.machine.state == crate::boy::StateTag::Sliding
            || b.machine.state == crate::boy::StateTag::Jumping,
        spec_current_cell(b) matches Some(c)
            && spec_first_intersecting_box(p.bounding_boxes, spec_bounding_box(b.machine.ctx, c))
                matches Some(bx)
            && 0 <= bx.y <= HEIGHT as int,
    ensures
        b.machine.ctx.velocity.y > 0 && b.machine.ctx.position.y < p.position.y
            ==> spec_check_platform(p, b).state == crate::boy::StateTag::Running
                && spec_check_platform(p, b).ctx.position.y
                    == (spec_first_intersecting_box(
                        p.bounding_boxes,
                        spec_bounding_box(b.machine.ctx, spec_current_cell(b)->Some_0),
                    )->Some_0).y - crate::boy::PLAYER_HEIGHT as int,
        !(b.machine.ctx.velocity.y > 0 && b.machine.ctx.position.y < p.position.y)
            ==> spec_check_platform(p, b).state == crate::boy::StateTag::Falling,
{
}

/// A single-box obstacle; any contact knocks the character out.
#[derive(Clone, Copy, Debug)]
pub struct Barrier {
    image: Image,
}

/// Barrier collision resolution: any intersection with the character's
/// collision box knocks the character out.
pub open spec fn spec_check_barrier(r: RectView, b: BoyView) -> MachineView {
    match spec_current_cell(b) {
        Some(cell) => {
            if spec_intersects(spec_bounding_box(b.machine.ctx, cell), r) {
                spec_transition(b.machine, Event::KnockOut)
            } else {
                b.machine
            }
        },
        None => b.machine,
    }
}

impl View for Barrier {
    type V = RectView;

    closed spec fn view(&self) -> RectView {
        self.image@
    }
}

impl Barrier {
    pub fn new(image: Image) -> (r: Barrier)
        ensures
            r@ == image@,
    {
        Barrier { image }
    }

    /// See `spec_check_barrier`.
    pub fn check_intersection(&self, boy: &mut RedHatBoy)
        requires
            box_ok(self@),
        ensures
            final(boy)@.machine == spec_check_barrier(self@, old(boy)@),
            final(boy)@.sheet == old(boy)@.sheet,
    {
        let bb = boy.bounding_box();
        if bb.intersects(self.image.bounding_box()) {
            boy.knock_out();
        }
    }

    pub fn move_horizontally(&mut self, x: i16)
        requires
            i16::MIN <= old(self)@.x + x as int <= i16::MAX,
        ensures
            final(self)@ == spec_shift_box(old(self)@, x as int),
    {
        self.image.move_horizontally(x);
    }

    /// Where the host draws the barrier's image.
    pub fn position(&self) -> (r: Point)
        ensures
            r@ == (PointView { x: self@.x, y: self@.y }),
    {
        self.image.bounding_box.position
    }

    pub fn right(&self) -> (r: i16)
        requires
            i16::MIN <= self@.right() <= i16::MAX,
        ensures
            r as int == self@.right(),
    {
        self.image.right()
    }
}

/// The closed set of obstacle kinds, dispatched by pattern match.
#[derive(Clone, Debug)]
pub enum Obstacle {
    Platform(Platform),
    Barrier(Barrier),
}

/// Mathematical model of an `Obstacle`.
pub ghost enum ObstacleView {
    Platform(PlatformView),
    Barrier(RectView),
}

impl View for Obstacle {
    type V = ObstacleView;

    open spec fn view(&self) -> ObstacleView {
        match self {
            Obstacle::Platform(p) => ObstacleView::Platform(p@),
            Obstacle::Barrier(b) => ObstacleView::Barrier(b@),
        }
    }
}

/// Every box of the obstacle is within bounds.
pub open spec fn obstacle_wf(o: ObstacleView) -> bool {
    match o {
        ObstacleView::Platform(p) => platform_wf(p),
        ObstacleView::Barrier(r) => box_ok(r),
    }
}

/// What resolving an intersection does to the character's machine.
pub open spec fn spec_check_obstacle(o: ObstacleView, b: BoyView) -> MachineView {
    match o {
        ObstacleView::Platform(p) => spec_check_platform(p, b),
        ObstacleView::Barrier(r) => spec_check_barrier(r, b),
    }
}

/// An obstacle's right edge: the largest right edge among its boxes.
pub open spec fn spec_obstacle_right(o: ObstacleView) -> int {
    match o {
        ObstacleView::Platform(p) => spec_right_most_box(p.bounding_boxes),
        ObstacleView::Barrier(r) => r.right(),
    }
}

/// Whether a horizontal move keeps every edge within `i16`.
pub open spec fn spec_obstacle_move_fits(o: ObstacleView, dx: int) -> bool {
    match o {
        ObstacleView::Platform(p) => {
            &&& i16::MIN <= p.position.x + dx <= i16::MAX
            &&& forall|k: int| 0 <= k < p.bounding_boxes.len()
                ==> i16::MIN <= (#[trigger] p.bounding_boxes[k]).x + dx <= i16::MAX
        },
        ObstacleView::Barrier(r) => i16::MIN <= r.x + dx <= i16::MAX && r.right() + dx <= i16::MAX,
    }
}

/// The obstacle after a horizontal move.
pub open spec fn spec_move_obstacle(o: ObstacleView, dx: int) -> ObstacleView {
    match o {
        ObstacleView::Platform(p) => ObstacleView::Platform(PlatformView {
            bounding_boxes: shift_boxes(p.bounding_boxes, dx),
            sprites: p.sprites,
            position: PointView { x: p.position.x + dx, y: p.position.y },
        }),
        ObstacleView::Barrier(r) => ObstacleView::Barrier(spec_shift_box(r, dx)),
    }
}

impl Obstacle {
    /// See `spec_check_obstacle`.
    pub fn check_intersection(&self, boy: &mut RedHatBoy)
        requires
            obstacle_wf(self@),
        ensures
            final(boy)@.machine == spec_check_obstacle(self@, old(boy)@),
            final(boy)@.sheet == old(boy)@.sheet,
    {
        match self {
            Obstacle::Platform(p) => p.check_intersection(boy),
            Obstacle::Barrier(b) => b.check_intersection(boy),
        }
    }

    /// Scrolls the obstacle horizontally.
    pub fn move_horizontally(&mut self, x: i16)
        requires
            spec_obstacle_move_fits(old(self)@, x as int),
        ensures
            final(self)@ == spec_move_obstacle(old(self)@, x as int),
    {
        match self {
            Obstacle::Platform(p) => p.move_horizontally(x),
            Obstacle::Barrier(b) => b.move_horizontally(x),
        }
    }

    /// See `spec_obstacle_right`.
    pub fn right(&self) -> (r: i16)
        requires
            obstacle_wf(self@),
        ensures
            r as int == spec_obstacle_right(self@),
    {
        match self {
            Obstacle::Platform(p) => p.right(),
            Obstacle::Barrier(b) => b.right(),
        }
    }
}

} // verus!
