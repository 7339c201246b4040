use vstd::prelude::*;
use crate::card::{
    Card, DRAG_SCALE, ImageSize, MAX_CARDS, Motion, CURSOR_LIMIT, PileId, REST_SCALE, Selection,
    STACK_STEP, grid_ok, snap_point_of, stack_goal,
};
use crate::geometry::{Bounds, Point, Size, UNIT, point_within, snap_point};
use crate::piles::{occupancy, pile_markers};

verus! {

/// Number of card backs that spawned cards rotate through.
pub const VARIANT_COUNT: usize = 3;

/// Extent of a new card's bounds on each axis, until its image has loaded.
pub const UNLOADED_EXTENT: i64 = 100 * UNIT;

/// The state of the table: its cards, the last known pointer position, the
/// grid cell size and the spawn rotation.
pub struct World {
    pub cards: Vec<Card>,
    pub cursor: Point,
    pub cell: Size,
    pub spawn_counter: usize,
}

/// What one frame brings in from outside.
pub struct FrameInput {
    /// The pointer in world space, or `None` while it cannot be resolved.
    pub cursor: Option<Point>,
    /// The primary button went down this frame.
    pub pressed: bool,
    /// The primary button went up this frame.
    pub released: bool,
    /// A new card was asked for this frame.
    pub spawn: bool,
    /// Image size of each card, by card index; `None` while not loaded.
    pub image_sizes: Vec<Option<ImageSize>>,
}

/// What one frame hands out for drawing, besides the cards themselves.
pub struct FrameOutput {
    pub cursor_marker: Point,
    /// The grid cell the held stack would drop into, while a card is held.
    pub preview: Option<Bounds>,
    /// Slots that hold more than one card.
    pub pile_markers: Vec<PileId>,
}

/// Number of held cards among the first `n`.
pub open spec fn selected_before(cards: Seq<Card>, n: int) -> nat
    decreases n,
{
    if n <= 0 {
        0
    } else {
        selected_before(cards, n - 1) + if cards[n - 1].selection == Selection::Selected {
            1nat
        } else {
            0nat
        }
    }
}

/// The rotation step of the spawn counter: increment, then wrap.
pub open spec fn next_variant_spec(counter: int, count: int) -> int {
    (counter + 1) % count
}

pub open spec fn spawned_card(at: Point, variant: usize) -> Card {
    Card {
        position: at,
        scale: REST_SCALE,
        z_index: 0,
        bounds: Bounds { center: at, size: Size { w: UNLOADED_EXTENT, h: UNLOADED_EXTENT } },
        selection: Selection::Unselected,
        motion: Motion::AtRest,
        pile: None,
        variant,
    }
}

pub open spec fn bounds_all(cards: Seq<Card>, sizes: Seq<Option<ImageSize>>) -> Seq<Card> {
    Seq::new(
        cards.len(),
        |i: int|
            if i < sizes.len() && sizes[i] is Some {
                cards[i].bounds_spec(sizes[i]->Some_0)
            } else {
                cards[i]
            },
    )
}

pub open spec fn select_all(cards: Seq<Card>, cursor: Point, pressed: bool, released: bool) -> Seq<
    Card,
> {
    Seq::new(cards.len(), |i: int| cards[i].select_spec(cursor, pressed, released))
}

pub open spec fn drag_all(cards: Seq<Card>, cursor: Point) -> Seq<Card> {
    Seq::new(
        cards.len(),
        |i: int|
            if cards[i].selection == Selection::Selected {
                cards[i].drag_spec(cursor, selected_before(cards, i) as int)
            } else {
                cards[i]
            },
    )
}

pub open spec fn place_all(cards: Seq<Card>, cell: Size) -> Seq<Card> {
    Seq::new(
        cards.len(),
        |i: int|
            if cards[i].selection == Selection::Unselected && cards[i].motion is Dragging {
                cards[i].place_spec(cards[i].motion->Dragging_0, cell)
            } else {
                cards[i]
            },
    )
}

pub open spec fn settle_all(cards: Seq<Card>) -> Seq<Card> {
    Seq::new(
        cards.len(),
        |i: int|
            if cards[i].selection == Selection::Unselected && cards[i].motion is AtRest {
                cards[i].settle_spec()
            } else {
                cards[i]
            },
    )
}

/// The grid cell under the pointer, as drawn while cards are held.
pub open spec fn preview_spec(cursor: Point, cell: Size) -> Bounds {
    Bounds { center: snap_point_of(cursor, cell), size: cell }
}

/// The rotation step of the spawn counter: `(counter + 1) % count`.
pub fn next_variant(counter: usize, count: usize) -> (r: usize)
    requires
        counter < count,
    ensures
        r as int == next_variant_spec(counter as int, count as int),
        r < count,
{
    (counter + 1) % count
}

impl World {
    pub open spec fn wf(&self) -> bool {
        &&& grid_ok(self.cell)
        &&& point_within(self.cursor, CURSOR_LIMIT as int)
        &&& self.cards.len() <= MAX_CARDS
        &&& self.spawn_counter < VARIANT_COUNT
        &&& forall|i: int| 0 <= i < self.cards.len() ==> (#[trigger] self.cards@[i]).wf(self.cell)
    }

    /// An empty table on a grid of `cell`-sized cells, with the pointer at
    /// the origin.
    pub fn new(cell: Size) -> (r: World)
        requires
            grid_ok(cell),
        ensures
            r.wf(),
            r.cards@ == Seq::<Card>::empty(),
            r.cursor == (Point { x: 0, y: 0 }),
            r.cell == cell,
            r.spawn_counter == 0,
    {
        World { cards: Vec::new(), cursor: Point { x: 0, y: 0 }, cell, spawn_counter: 0 }
    }

    /// Takes the resolved pointer position; keeps the last one when the
    /// pointer could not be resolved.
    pub fn resolve_cursor(&mut self, input: Option<Point>)
        requires
            old(self).wf(),
            input matches Some(p) ==> point_within(p, CURSOR_LIMIT as int),
        ensures
            final(self).wf(),
            final(self).cursor == (match input {
                Some(p) => p,
                None => old(self).cursor,
            }),
            final(self).cards@ == old(self).cards@,
            final(self).cell == old(self).cell,
            final(self).spawn_counter == old(self).spawn_counter,
    {
        match input {
            Some(p) => {
                self.cursor = p;
            },
            None => {},
        }
    }

    /// Adds a card at the pointer, with the next card back of the rotation.
    pub fn spawn_card(&mut self)
        requires
            old(self).wf(),
            old(self).cards.len() < MAX_CARDS,
        ensures
            final(self).wf(),
            final(self).spawn_counter as int == next_variant_spec(
                old(self).spawn_counter as int,
                VARIANT_COUNT as int,
            ),
            final(self).cards@ == old(self).cards@.push(
                spawned_card(old(self).cursor, final(self).spawn_counter),
            ),
            final(self).cursor == old(self).cursor,
            final(self).cell == old(self).cell,
    {
        let v = next_variant(self.spawn_counter, VARIANT_COUNT);
        self.spawn_counter = v;
        let at = self.cursor;
        let card = Card {
            position: at,
            scale: REST_SCALE,
            z_index: 0,
            bounds: Bounds { center: at, size: Size { w: UNLOADED_EXTENT, h: UNLOADED_EXTENT } },
            selection: Selection::Unselected,
            motion: Motion::AtRest,
            pile: None,
            variant: v,
        };
        self.cards.push(card);
        proof {
            assert forall|i: int| 0 <= i < self.cards.len() implies (
            #[trigger] self.cards@[i]).wf(self.cell) by {
                if i < old(self).cards.len() {
                    assert(self.cards@[i] == old(self).cards@[i]);
                }
            }
        }
    }

    /// Recomputes the bounds of every card whose image size is known; the
    /// others keep their bounds.
    pub fn update_bounds(&mut self, sizes: &Vec<Option<ImageSize>>)
        requires
            old(self).wf(),
        ensures
            final(self).wf(),
            final(self).cards@ == bounds_all(old(self).cards@, sizes@),
            final(self).cursor == old(self).cursor,
            final(self).cell == old(self).cell,
            final(self).spawn_counter == old(self).spawn_counter,
    {
        let ghost before = self.cards@;
        let mut i: usize = 0;
        while i < self.cards.len()
            invariant
                self.wf(),
                self.cursor == old(self).cursor,
                self.cell == old(self).cell,
                self.spawn_counter == old(self).spawn_counter,
                before == old(self).cards@,
                self.cards.len() == before.len(),
                i <= before.len(),
                forall|j: int| 0 <= j < i ==> #[trigger] self.cards@[j] == bounds_all(before, sizes@)[j],
                forall|j: int| i <= j < before.len() ==> #[trigger] self.cards@[j] == before[j],
            decreases before.len() - i,
        {
            if i < sizes.len() {
                match sizes[i] {
                    Some(img) => {
                        let c = self.cards[i].with_bounds(img);
                        self.cards[i] = c;
                    },
                    None => {},
                }
            }
            i += 1;
        }
        assert(self.cards@ =~= bounds_all(before, sizes@));
    }

    /// Grabs every card under the pointer on a press; lets go of every card
    /// on a release.
    pub fn select_cards(&mut self, pressed: bool, released: bool)
        requires
            old(self).wf(),
        ensures
            final(self).wf(),
            final(self).cards@ == select_all(old(self).cards@, old(self).cursor, pressed, released),
            forall|i: int|
                0 <= i < final(self).cards.len() && (#[trigger] final(self).cards@[i]).selection
                    == Selection::Selected ==> final(self).cards@[i].pile is None,
            final(self).cursor == old(self).cursor,
            final(self).cell == old(self).cell,
            final(self).spawn_counter == old(self).spawn_counter,
    {
        let ghost before = self.cards@;
        let mut i: usize = 0;
        while i < self.cards.len()
            invariant
                self.wf(),
                self.cursor == old(self).cursor,
                self.cell == old(self).cell,
                self.spawn_counter == old(self).spawn_counter,
                before == old(self).cards@,
                self.cards.len() == before.len(),
                i <= before.len(),
                forall|j: int|
                    0 <= j < i ==> #[trigger] self.cards@[j] == select_all(
                        before,
                        self.cursor,
                        pressed,
                        released,
                    )[j],
                forall|j: int| i <= j < before.len() ==> #[trigger] self.cards@[j] == before[j],
            decreases before.len() - i,
        {
            let c = self.cards[i].select(self.cursor, pressed, released);
            self.cards[i] = c;
            i += 1;
        }
        assert(self.cards@ =~= select_all(before, self.cursor, pressed, released));
    }

    /// Moves every held card towards the pointer, fanned out by its stack
    /// index (its rank among the held cards, in table order). Returns the
    /// grid cell under the pointer while at least one card is held.
    pub fn drag_selected(&mut self) -> (preview: Option<Bounds>)
        requires
            old(self).wf(),
        ensures
            final(self).wf(),
            final(self).cards@ == drag_all(old(self).cards@, old(self).cursor),
            preview == (if selected_before(old(self).cards@, old(self).cards.len() as int) > 0 {
                Some(preview_spec(old(self).cursor, old(self).cell))
            } else {
                None
            }),
            final(self).cursor == old(self).cursor,
            final(self).cell == old(self).cell,
            final(self).spawn_counter == old(self).spawn_counter,
    {
        let ghost before = self.cards@;
        let mut preview: Option<Bounds> = None;
        let mut k: usize = 0;
        let mut i: usize = 0;
        while i < self.cards.len()
            invariant
                self.wf(),
                self.cursor == old(self).cursor,
                self.cell == old(self).cell,
                self.spawn_counter == old(self).spawn_counter,
                before == old(self).cards@,
                self.cards.len() == before.len(),
                i <= before.len(),
                k == selected_before(before, i as int),
                k <= i,
                preview == (if k > 0 {
                    Some(preview_spec(self.cursor, self.cell))
                } else {
                    None
                }),
                forall|j: int|
                    0 <= j < i ==> #[trigger] self.cards@[j] == drag_all(before, self.cursor)[j],
                forall|j: int| i <= j < before.len() ==> #[trigger] self.cards@[j] == before[j],
            decreases before.len() - i,
        {
            let c = self.cards[i];
            if c.selection == Selection::Selected {
                if k == 0 {
                    let center = snap_point(self.cursor, self.cell);
                    preview = Some(Bounds { center, size: self.cell });
                }
                let d = c.drag(self.cursor, k);
                self.cards[i] = d;
                k += 1;
            }
            i += 1;
        }
        assert(self.cards@ =~= drag_all(before, self.cursor));
        preview
    }

    /// Moves every released card one frame towards its grid anchor; see
    /// [`Card::place_spec`].
    pub fn place_released(&mut self)
        requires
            old(self).wf(),
        ensures
            final(self).wf(),
            final(self).cards@ == place_all(old(self).cards@, old(self).cell),
            final(self).cursor == old(self).cursor,
            final(self).cell == old(self).cell,
            final(self).spawn_counter == old(self).spawn_counter,
    {
        let ghost before = self.cards@;
        let mut i: usize = 0;
        while i < self.cards.len()
            invariant
                self.wf(),
                self.cursor == old(self).cursor,
                self.cell == old(self).cell,
                self.spawn_counter == old(self).spawn_counter,
                before == old(self).cards@,
                self.cards.len() == before.len(),
                i <= before.len(),
                forall|j: int|
                    0 <= j < i ==> #[trigger] self.cards@[j] == place_all(before, self.cell)[j],
                forall|j: int| i <= j < before.len() ==> #[trigger] self.cards@[j] == before[j],
            decreases before.len() - i,
        {
            let c = self.cards[i];
            if c.selection == Selection::Unselected {
                if let Motion::Dragging(_) = c.motion {
                    let d = c.place(self.cell);
                    self.cards[i] = d;
                }
            }
            i += 1;
        }
        assert(self.cards@ =~= place_all(before, self.cell));
    }

    /// Eases every card that is neither held nor moving back to its resting
    /// scale.
    pub fn settle_cards(&mut self)
        requires
            old(self).wf(),
        ensures
            final(self).wf(),
            final(self).cards@ == settle_all(old(self).cards@),
            final(self).cursor == old(self).cursor,
            final(self).cell == old(self).cell,
            final(self).spawn_counter == old(self).spawn_counter,
    {
        let ghost before = self.cards@;
        let mut i: usize = 0;
        while i < self.cards.len()
            invariant
                self.wf(),
                self.cursor == old(self).cursor,
                self.cell == old(self).cell,
                self.spawn_counter == old(self).spawn_counter,
                before == old(self).cards@,
                self.cards.len() == before.len(),
                i <= before.len(),
                forall|j: int| 0 <= j < i ==> #[trigger] self.cards@[j] == settle_all(before)[j],
                forall|j: int| i <= j < before.len() ==> #[trigger] self.cards@[j] == before[j],
            decreases before.len() - i,
        {
            let c = self.cards[i];
            if c.selection == Selection::Unselected {
                if let Motion::AtRest = c.motion {
                    let d = c.settle();
                    self.cards[i] = d;
                }
            }
            i += 1;
        }
        assert(self.cards@ =~= settle_all(before));
    }

    /// One whole frame: resolve the pointer, spawn a card if asked, refresh
    /// bounds, update selection, drag the held cards, place the released
    /// ones, settle the resting ones, and report the slots holding a pile.
    pub fn step(&mut self, input: &FrameInput) -> (out: FrameOutput)
        requires
            old(self).wf(),
            input.cursor matches Some(p) ==> point_within(p, CURSOR_LIMIT as int),
            input.spawn ==> old(self).cards.len() < MAX_CARDS,
        ensures
            final(self).wf(),
            final(self).cursor == (match input.cursor {
                Some(p) => p,
                None => old(self).cursor,
            }),
            final(self).cell == old(self).cell,
            final(self).spawn_counter == (if input.spawn {
                next_variant_spec(old(self).spawn_counter as int, VARIANT_COUNT as int) as usize
            } else {
                old(self).spawn_counter
            }),
            ({
                let cursor = final(self).cursor;
                let spawned = if input.spawn {
                    old(self).cards@.push(spawned_card(cursor, final(self).spawn_counter))
                } else {
                    old(self).cards@
                };
                let selected = select_all(
                    bounds_all(spawned, input.image_sizes@),
                    cursor,
                    input.pressed,
                    input.released,
                );
                &&& final(self).cards@ == settle_all(
                    place_all(drag_all(selected, cursor), final(self).cell),
                )
                &&& out.preview == (if selected_before(selected, selected.len() as int) > 0 {
                    Some(preview_spec(cursor, final(self).cell))
                } else {
                    None
                })
            }),
            out.cursor_marker == final(self).cursor,
            out.pile_markers@.no_duplicates(),
            forall|id: PileId|
                out.pile_markers@.contains(id) <==> occupancy(final(self).cards@, id) > 1,
            forall|i: int|
                0 <= i < final(self).cards.len() && (#[trigger] final(self).cards@[i]).selection
                    == Selection::Selected ==> final(self).cards@[i].pile is None,
    {
        self.resolve_cursor(input.cursor);
        if input.spawn {
            self.spawn_card();
        }
        self.update_bounds(&input.image_sizes);
        self.select_cards(input.pressed, input.released);
        let preview = self.drag_selected();
        self.place_released();
        self.settle_cards();
        let markers = pile_markers(&self.cards);
        proof {
            assert forall|i: int|
                0 <= i < self.cards.len() && (#[trigger] self.cards@[i]).selection
                    == Selection::Selected implies self.cards@[i].pile is None by {
                assert(self.cards@[i].wf(self.cell));
            }
        }
        FrameOutput { cursor_marker: self.cursor, preview, pile_markers: markers }
    }
}

/// After the bounds refresh, every card whose image size is known has its
/// bounds centered on its position, `image size * scale` wide and high.
pub proof fn lemma_bounds_consistent(cards: Seq<Card>, sizes: Seq<Option<ImageSize>>, i: int)
    requires
        0 <= i < cards.len(),
        i < sizes.len(),
        sizes[i] is Some,
        REST_SCALE <= cards[i].scale <= DRAG_SCALE,
    ensures
        ({
            let b = bounds_all(cards, sizes)[i].bounds;
            let img = sizes[i]->Some_0;
            &&& b.center == cards[i].position
            &&& b.size.w == img.w * cards[i].scale
            &&& b.size.h == img.h * cards[i].scale
        }),
{
    let img = sizes[i]->Some_0;
    let sc = cards[i].scale as int;
    assert(0 <= img.w as int * sc <= 0x1_0000_0000 * DRAG_SCALE) by (nonlinear_arith)
        requires
            0 <= img.w < 0x1_0000_0000,
            0 <= sc <= DRAG_SCALE,
    {}
    assert(0 <= img.h as int * sc <= 0x1_0000_0000 * DRAG_SCALE) by (nonlinear_arith)
        requires
            0 <= img.h < 0x1_0000_0000,
            0 <= sc <= DRAG_SCALE,
    {}
}

proof fn lemma_selected_before_monotone(cards: Seq<Card>, j: int, k: int)
    requires
        0 <= j <= k <= cards.len(),
    ensures
        selected_before(cards, j) <= selected_before(cards, k),
    decreases k - j,
{
    if j < k {
        lemma_selected_before_monotone(cards, j, k - 1);
    }
}

proof fn lemma_selected_before_bounded(cards: Seq<Card>, n: int)
    requires
        0 <= n <= cards.len(),
    ensures
        selected_before(cards, n) <= n,
    decreases n,
{
    if n > 0 {
        lemma_selected_before_bounded(cards, n - 1);
    }
}

/// The held cards, taken in table order, get the stack indices
/// `0, 1, ..., n - 1` where `n` is the number of held cards: each is drawn at
/// depth `index + 1` and pulled `index` stack steps away from the pointer.
pub proof fn lemma_stack_order(cards: Seq<Card>, cursor: Point)
    requires
        cards.len() <= MAX_CARDS,
    ensures
        forall|j: int, k: int|
            0 <= j < k < cards.len() && cards[j].selection == Selection::Selected
                ==> #[trigger] selected_before(cards, j) < #[trigger] selected_before(cards, k),
        forall|j: int|
            0 <= j < cards.len() && cards[j].selection == Selection::Selected ==> {
                let i = #[trigger] selected_before(cards, j);
                &&& i < selected_before(cards, cards.len() as int)
                &&& drag_all(cards, cursor)[j].z_index == i + 1
                &&& drag_all(cards, cursor)[j] == cards[j].drag_spec(cursor, i as int)
                &&& stack_goal(cursor, i as int) == (
                    cursor.x + i * STACK_STEP,
                    cursor.y + i * STACK_STEP,
                )
            },
{
    assert forall|j: int, k: int|
        0 <= j < k < cards.len() && cards[j].selection == Selection::Selected
            implies #[trigger] selected_before(cards, j) < #[trigger] selected_before(cards, k) by {
        lemma_selected_before_monotone(cards, j + 1, k);
    }
    assert forall|j: int|
        0 <= j < cards.len() && cards[j].selection == Selection::Selected implies {
            let i = #[trigger] selected_before(cards, j);
            &&& i < selected_before(cards, cards.len() as int)
            &&& drag_all(cards, cursor)[j].z_index == i + 1
        } by {
        lemma_selected_before_monotone(cards, j + 1, cards.len() as int);
        lemma_selected_before_bounded(cards, j);
        let i = selected_before(cards, j);
        assert(drag_all(cards, cursor)[j] == cards[j].drag_spec(cursor, i as int));
        assert(cards[j].drag_spec(cursor, i as int).z_index == (i + 1) as u64);
    }
}

} // verus!
