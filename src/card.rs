use vstd::prelude::*;
use crate::easing::{Rate, ease, eased, lemma_ease_progress};
use crate::geometry::{
    Bounds, COORD_LIMIT, Point, Size, UNIT, cell_ok, floor_div, lemma_snap_near,
    lemma_snap_point_idempotent, point_within, rect_contains, size_within, snap_point, snap_spec,
    within,
};

verus! {

/// Resting scale of a card, in thousandths.
pub const REST_SCALE: i64 = 500;

/// Scale of a card while it is held: 1.2 times the resting scale.
pub const DRAG_SCALE: i64 = 600;

/// Diagonal distance between two neighbouring cards of a held stack.
pub const STACK_STEP: i64 = 10 * UNIT;

/// Largest magnitude of a pointer coordinate.
pub const CURSOR_LIMIT: i64 = 0x1000_0000_0000;

/// Largest grid cell extent.
pub const CELL_LIMIT: i64 = 0x100_0000_0000;

/// Largest magnitude of a drag target, and of its grid anchor.
pub const TARGET_LIMIT: i64 = 0x2000_0000_0000;

/// Largest magnitude of a card position or of a bounds center.
pub const REACH_LIMIT: i64 = 0x4000_0000_0000;

/// Most cards a table holds.
pub const MAX_CARDS: usize = 0x10_0000;

/// Share of the gap a held card's scale closes per frame, in tenths.
pub const DRAG_SCALE_RATE: i64 = 1;

/// Share of the gap a released card closes per frame, in hundredths.
pub const RELEASE_RATE: i64 = 15;

/// Share of the gap a resting card's scale closes per frame, in tenths.
pub const SETTLE_RATE: i64 = 2;

/// Whether a card is held by the pointer.
#[derive(Clone, Copy, Debug, PartialEq, Eq, Structural)]
pub enum Selection {
    Unselected,
    Selected,
}

/// Whether a card is on its way somewhere.
#[derive(Clone, Copy, Debug, PartialEq, Eq, Structural)]
pub enum Motion {
    AtRest,
    Dragging(Point),
}

/// A grid slot, named by the world-unit floor of its anchor.
#[derive(Clone, Copy, Debug, PartialEq, Eq, Structural)]
pub struct PileId {
    pub x: i64,
    pub y: i64,
}

/// Pixel dimensions of a card's image.
#[derive(Clone, Copy, Debug, PartialEq, Eq, Structural)]
pub struct ImageSize {
    pub w: u32,
    pub h: u32,
}

#[derive(Clone, Copy, Debug, PartialEq, Eq, Structural)]
pub struct Card {
    /// World-space center, in sub-units.
    pub position: Point,
    /// Visual scale, in thousandths.
    pub scale: i64,
    /// Draw order; 0 is the table itself.
    pub z_index: u64,
    pub bounds: Bounds,
    pub selection: Selection,
    pub motion: Motion,
    pub pile: Option<PileId>,
    /// Which of the card backs is drawn.
    pub variant: usize,
}

impl PileId {
    /// The slot named by a point: the world-unit floor of each coordinate.
    pub fn new(p: Point) -> (r: PileId)
        ensures
            r == pile_of(p),
    {
        PileId { x: floor_div(p.x, UNIT), y: floor_div(p.y, UNIT) }
    }

    /// The slot's anchor in world space, in sub-units.
    pub fn pos(&self) -> (r: Point)
        requires
            within(self.x as int, i64::MAX as int / UNIT as int),
            within(self.y as int, i64::MAX as int / UNIT as int),
        ensures
            r.x == self.x * UNIT,
            r.y == self.y * UNIT,
    {
        Point { x: self.x * UNIT, y: self.y * UNIT }
    }
}

pub open spec fn grid_ok(cell: Size) -> bool {
    cell_ok(cell) && cell.w <= CELL_LIMIT && cell.h <= CELL_LIMIT
}

pub open spec fn target_ok(t: Point, cell: Size) -> bool {
    let (sx, sy) = snap_spec(t, cell);
    point_within(t, TARGET_LIMIT as int) && within(sx, TARGET_LIMIT as int) && within(
        sy,
        TARGET_LIMIT as int,
    )
}

/// The slot named by a point: the floor of each coordinate in world units.
pub open spec fn pile_of(t: Point) -> PileId {
    PileId { x: (t.x as int / UNIT as int) as i64, y: (t.y as int / UNIT as int) as i64 }
}

/// Two points lie in the same world unit on both axes.
pub open spec fn same_unit(a: Point, b: Point) -> bool {
    a.x as int / UNIT as int == b.x as int / UNIT as int && a.y as int / UNIT as int == b.y as int
        / UNIT as int
}

pub open spec fn stack_offset(i: int) -> int {
    i * STACK_STEP
}

/// Where the card at stack index `i` is pulled while the pointer is at `cursor`.
pub open spec fn stack_goal(cursor: Point, i: int) -> (int, int) {
    (cursor.x + stack_offset(i), cursor.y + stack_offset(i))
}

/// Rate at which the card at stack index `i` follows the pointer:
/// `(i + 1) / 10`, at most one.
pub open spec fn follow_rate(i: int) -> Rate {
    Rate { num: if i + 1 < 10 { (i + 1) as i64 } else { 10 }, den: 10 }
}

pub open spec fn drag_scale_rate() -> Rate {
    Rate { num: DRAG_SCALE_RATE, den: 10 }
}

pub open spec fn release_rate() -> Rate {
    Rate { num: RELEASE_RATE, den: 100 }
}

pub open spec fn settle_rate() -> Rate {
    Rate { num: SETTLE_RATE, den: 10 }
}

impl Card {
    /// A card is consistent with a grid of cells of size `cell`.
    pub open spec fn wf(self, cell: Size) -> bool {
        &&& point_within(self.position, REACH_LIMIT as int)
        &&& REST_SCALE <= self.scale <= DRAG_SCALE
        &&& point_within(self.bounds.center, REACH_LIMIT as int)
        &&& size_within(self.bounds.size, COORD_LIMIT as int)
        &&& (self.motion matches Motion::Dragging(t) ==> target_ok(t, cell))
        &&& (self.selection == Selection::Selected ==> self.pile is None && self.motion is Dragging)
        &&& (self.pile is Some ==> self.motion is AtRest)
    }

    pub open spec fn bounds_spec(self, img: ImageSize) -> Card {
        Card {
            bounds: Bounds {
                center: self.position,
                size: Size {
                    w: (img.w as int * self.scale) as i64,
                    h: (img.h as int * self.scale) as i64,
                },
            },
            ..self
        }
    }

    pub open spec fn select_spec(self, cursor: Point, pressed: bool, released: bool) -> Card {
        if pressed && rect_contains(self.bounds, cursor) {
            Card {
                selection: Selection::Selected,
                pile: None,
                motion: Motion::Dragging(cursor),
                ..self
            }
        } else if released {
            Card { selection: Selection::Unselected, ..self }
        } else {
            self
        }
    }

    pub open spec fn drag_spec(self, cursor: Point, i: int) -> Card {
        let (gx, gy) = stack_goal(cursor, i);
        Card {
            position: Point {
                x: eased(self.position.x as int, gx, follow_rate(i)) as i64,
                y: eased(self.position.y as int, gy, follow_rate(i)) as i64,
            },
            scale: eased(self.scale as int, DRAG_SCALE as int, drag_scale_rate()) as i64,
            z_index: (i + 1) as u64,
            motion: Motion::Dragging(cursor),
            ..self
        }
    }

    /// One frame of a released card: its target moves to its grid anchor;
    /// once the card lies in the same world unit as that anchor it comes to
    /// rest in the anchor's slot. It keeps easing towards the anchor either way.
    pub open spec fn place_spec(self, t: Point, cell: Size) -> Card {
        let (sx, sy) = snap_spec(t, cell);
        let anchor = Point { x: sx as i64, y: sy as i64 };
        let arrived = same_unit(self.position, anchor);
        Card {
            position: Point {
                x: eased(self.position.x as int, sx, release_rate()) as i64,
                y: eased(self.position.y as int, sy, release_rate()) as i64,
            },
            scale: eased(self.scale as int, REST_SCALE as int, release_rate()) as i64,
            z_index: 0,
            motion: if arrived {
                Motion::AtRest
            } else {
                Motion::Dragging(anchor)
            },
            pile: if arrived {
                Some(pile_of(anchor))
            } else {
                None
            },
            ..self
        }
    }

    pub open spec fn settle_spec(self) -> Card {
        Card { scale: eased(self.scale as int, REST_SCALE as int, settle_rate()) as i64, ..self }
    }

    /// Recomputes the bounds from the position, the scale and the image size:
    /// centered on the card, `image size * scale` wide and high.
    pub fn with_bounds(&self, img: ImageSize) -> (r: Card)
        requires
            point_within(self.position, REACH_LIMIT as int),
            REST_SCALE <= self.scale <= DRAG_SCALE,
        ensures
            r == self.bounds_spec(img),
            forall|cell: Size| self.wf(cell) ==> r.wf(cell),
    {
        proof {
            assert(img.w as int * self.scale <= 0x1_0000_0000 * DRAG_SCALE) by (nonlinear_arith)
                requires
                    0 <= img.w < 0x1_0000_0000,
                    0 <= self.scale <= DRAG_SCALE,
            {}
            assert(img.h as int * self.scale <= 0x1_0000_0000 * DRAG_SCALE) by (nonlinear_arith)
                requires
                    0 <= img.h < 0x1_0000_0000,
                    0 <= self.scale <= DRAG_SCALE,
            {}
            assert(0 <= img.w as int * self.scale) by (nonlinear_arith)
                requires
                    0 <= img.w,
                    0 <= self.scale,
            {}
            assert(0 <= img.h as int * self.scale) by (nonlinear_arith)
                requires
                    0 <= img.h,
                    0 <= self.scale,
            {}
        }
        let w = img.w as i64 * self.scale;
        let h = img.h as i64 * self.scale;
        Card { bounds: Bounds { center: self.position, size: Size { w, h } }, ..*self }
    }

    /// Reacts to the pointer's edges: a press on the card grabs it (and takes
    /// it out of its pile); otherwise a release lets it go.
    pub fn select(&self, cursor: Point, pressed: bool, released: bool) -> (r: Card)
        requires
            point_within(self.bounds.center, REACH_LIMIT as int),
            size_within(self.bounds.size, COORD_LIMIT as int),
            point_within(cursor, CURSOR_LIMIT as int),
        ensures
            r == self.select_spec(cursor, pressed, released),
            forall|cell: Size| grid_ok(cell) && self.wf(cell) ==> r.wf(cell),
    {
        proof {
            assert forall|cell: Size| grid_ok(cell) implies target_ok(cursor, cell) by {
                lemma_cursor_target_ok(cursor, cell);
            }
        }
        if pressed && self.bounds.contains(cursor) {
            Card {
                selection: Selection::Selected,
                pile: None,
                motion: Motion::Dragging(cursor),
                ..*self
            }
        } else if released {
            Card { selection: Selection::Unselected, ..*self }
        } else {
            *self
        }
    }

    /// One frame of a held card at stack index `i`: it follows the pointer,
    /// offset by `i` stack steps on both axes, grows towards the held scale
    /// and is drawn at depth `i + 1`.
    pub fn drag(&self, cursor: Point, i: usize) -> (r: Card)
        requires
            point_within(self.position, REACH_LIMIT as int),
            REST_SCALE <= self.scale <= DRAG_SCALE,
            point_within(cursor, CURSOR_LIMIT as int),
            i < MAX_CARDS,
        ensures
            r == self.drag_spec(cursor, i as int),
            forall|cell: Size|
                grid_ok(cell) && self.wf(cell) && self.selection == Selection::Selected ==> r.wf(
                    cell,
                ),
    {
        let rate = Rate { num: if i + 1 < 10 { (i + 1) as i64 } else { 10 }, den: 10 };
        let offset = i as i64 * STACK_STEP;
        let gx = cursor.x + offset;
        let gy = cursor.y + offset;
        let scale_rate = Rate { num: DRAG_SCALE_RATE, den: 10 };
        proof {
            lemma_ease_progress(self.position.x as int, gx as int, rate);
            lemma_ease_progress(self.position.y as int, gy as int, rate);
            lemma_ease_progress(self.scale as int, DRAG_SCALE as int, scale_rate);
            assert forall|cell: Size| grid_ok(cell) implies target_ok(cursor, cell) by {
                lemma_cursor_target_ok(cursor, cell);
            }
        }
        Card {
            position: Point { x: ease(self.position.x, gx, rate), y: ease(self.position.y, gy, rate) },
            scale: ease(self.scale, DRAG_SCALE, scale_rate),
            z_index: (i + 1) as u64,
            motion: Motion::Dragging(cursor),
            ..*self
        }
    }

    /// One frame of a released card; see [`Card::place_spec`].
    pub fn place(&self, cell: Size) -> (r: Card)
        requires
            self.wf(cell),
            grid_ok(cell),
            self.motion is Dragging,
        ensures
            r == self.place_spec(self.motion->Dragging_0, cell),
            self.selection == Selection::Unselected ==> r.wf(cell),
    {
        let t = match self.motion {
            Motion::Dragging(t) => t,
            Motion::AtRest => self.position,
        };
        let anchor = snap_point(t, cell);
        proof {
            lemma_snap_point_idempotent(t, cell);
        }
        let arrived = floor_div(self.position.x, UNIT) == floor_div(anchor.x, UNIT) && floor_div(
            self.position.y,
            UNIT,
        ) == floor_div(anchor.y, UNIT);
        let rate = Rate { num: RELEASE_RATE, den: 100 };
        proof {
            lemma_ease_progress(self.position.x as int, anchor.x as int, rate);
            lemma_ease_progress(self.position.y as int, anchor.y as int, rate);
            lemma_ease_progress(self.scale as int, REST_SCALE as int, rate);
        }
        let position = Point {
            x: ease(self.position.x, anchor.x, rate),
            y: ease(self.position.y, anchor.y, rate),
        };
        let scale = ease(self.scale, REST_SCALE, rate);
        if arrived {
            let pile = PileId { x: floor_div(anchor.x, UNIT), y: floor_div(anchor.y, UNIT) };
            Card { position, scale, z_index: 0, motion: Motion::AtRest, pile: Some(pile), ..*self }
        } else {
            Card {
                position,
                scale,
                z_index: 0,
                motion: Motion::Dragging(anchor),
                pile: None,
                ..*self
            }
        }
    }

    /// Eases the scale of a resting card back towards the resting scale.
    pub fn settle(&self) -> (r: Card)
        requires
            REST_SCALE <= self.scale <= DRAG_SCALE,
        ensures
            r == self.settle_spec(),
            forall|cell: Size| self.wf(cell) ==> r.wf(cell),
    {
        let rate = Rate { num: SETTLE_RATE, den: 10 };
        proof {
            lemma_ease_progress(self.scale as int, REST_SCALE as int, rate);
        }
        Card { scale: ease(self.scale, REST_SCALE, rate), ..*self }
    }
}

/// A pointer position is a usable drag target on every allowed grid.
pub proof fn lemma_cursor_target_ok(cursor: Point, cell: Size)
    requires
        grid_ok(cell),
        point_within(cursor, CURSOR_LIMIT as int),
    ensures
        target_ok(cursor, cell),
{
    lemma_snap_near(cursor.x as int, cell.w as int);
    lemma_snap_near(cursor.y as int, cell.h as int);
}

/// Distance between two points, summed over both axes.
pub open spec fn gap(a: Point, b: Point) -> nat {
    let dx = if a.x >= b.x { a.x - b.x } else { b.x - a.x };
    let dy = if a.y >= b.y { a.y - b.y } else { b.y - a.y };
    (dx + dy) as nat
}

/// The card after `n` more frames of release, stopping once it rests.
pub open spec fn after_frames(c: Card, cell: Size, n: nat) -> Card
    decreases n,
{
    if n == 0 {
        c
    } else {
        match c.motion {
            Motion::Dragging(t) => after_frames(c.place_spec(t, cell), cell, (n - 1) as nat),
            Motion::AtRest => c,
        }
    }
}

/// A released card stays consistent, and each frame it either comes to rest
/// in the slot of its grid anchor or gets strictly closer to that anchor,
/// which stays the same from frame to frame.
pub proof fn lemma_release_step(c: Card, cell: Size)
    requires
        c.wf(cell),
        grid_ok(cell),
        c.selection == Selection::Unselected,
        c.motion is Dragging,
    ensures
        ({
            let t = c.motion->Dragging_0;
            let (sx, sy) = snap_spec(t, cell);
            let anchor = Point { x: sx as i64, y: sy as i64 };
            let r = c.place_spec(t, cell);
            &&& r.wf(cell)
            &&& snap_spec(anchor, cell) == (sx, sy)
            &&& (r.motion is AtRest ==> r.pile == Some(pile_of(anchor)))
            &&& (r.motion is Dragging ==> r.motion == Motion::Dragging(anchor) && gap(
                r.position,
                anchor,
            ) < gap(c.position, anchor))
        }),
{
    let t = c.motion->Dragging_0;
    let (sx, sy) = snap_spec(t, cell);
    lemma_snap_point_idempotent(t, cell);
    lemma_ease_progress(c.position.x as int, sx, release_rate());
    lemma_ease_progress(c.position.y as int, sy, release_rate());
    lemma_ease_progress(c.scale as int, REST_SCALE as int, release_rate());
}

/// A released card comes to rest after finitely many frames, in the slot of
/// the grid anchor of its target.
pub proof fn lemma_release_arrives(c: Card, cell: Size)
    requires
        c.wf(cell),
        grid_ok(cell),
        c.selection == Selection::Unselected,
        c.motion is Dragging,
    ensures
        ({
            let (sx, sy) = snap_spec(c.motion->Dragging_0, cell);
            let anchor = Point { x: sx as i64, y: sy as i64 };
            exists|n: nat|
                #![trigger after_frames(c, cell, n)]
                after_frames(c, cell, n).motion is AtRest && after_frames(c, cell, n).pile == Some(
                    pile_of(anchor),
                )
        }),
    decreases gap(c.position, snap_point_of(c.motion->Dragging_0, cell)),
{
    let t = c.motion->Dragging_0;
    let (sx, sy) = snap_spec(t, cell);
    let anchor = Point { x: sx as i64, y: sy as i64 };
    let r = c.place_spec(t, cell);
    lemma_release_step(c, cell);
    assert(after_frames(c, cell, 1) == after_frames(r, cell, 0));
    if r.motion is AtRest {
        assert(after_frames(c, cell, 1).motion is AtRest);
    } else {
        assert(snap_point_of(anchor, cell) == anchor);
        lemma_release_arrives(r, cell);
        let n = choose|n: nat|
            #![trigger after_frames(r, cell, n)]
            after_frames(r, cell, n).motion is AtRest && after_frames(r, cell, n).pile == Some(
                pile_of(anchor),
            );
        assert(after_frames(c, cell, n + 1) == after_frames(r, cell, n));
    }
}

/// The grid anchor of a point, as a point.
pub open spec fn snap_point_of(t: Point, cell: Size) -> Point {
    let (sx, sy) = snap_spec(t, cell);
    Point { x: sx as i64, y: sy as i64 }
}

} // verus!
