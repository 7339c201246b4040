use card_sandbox::card::{
    Card, ImageSize, Motion, PileId, Selection, DRAG_SCALE, REST_SCALE, STACK_STEP,
};
use card_sandbox::geometry::{Bounds, Point, Size, UNIT};
use card_sandbox::piles::{pile_markers, pile_occupancy};
use card_sandbox::world::{next_variant, FrameInput, World, VARIANT_COUNT};

fn pt(x: i64, y: i64) -> Point {
    Point { x: x * UNIT, y: y * UNIT }
}

fn card_at(p: Point) -> Card {
    Card {
        position: p,
        scale: REST_SCALE,
        z_index: 0,
        bounds: Bounds { center: p, size: Size { w: 100 * UNIT, h: 100 * UNIT } },
        selection: Selection::Unselected,
        motion: Motion::AtRest,
        pile: None,
        variant: 0,
    }
}

fn in_pile(x: i64, y: i64) -> Card {
    Card { pile: Some(PileId { x, y }), ..card_at(pt(x, y)) }
}

fn frame(cursor: Option<Point>) -> FrameInput {
    FrameInput { cursor, pressed: false, released: false, spawn: false, image_sizes: Vec::new() }
}

fn grid() -> Size {
    Size { w: 150 * UNIT, h: 150 * UNIT }
}

#[test]
fn spawn_rotates_variants() {
    let mut w = World::new(grid());
    for _ in 0..4 {
        w.spawn_card();
    }
    let variants: Vec<usize> = w.cards.iter().map(|c| c.variant).collect();
    assert_eq!(variants, vec![1, 2, 0, 1]);
    assert_eq!(w.spawn_counter, 1);
}

#[test]
fn next_variant_wraps() {
    assert_eq!(next_variant(0, VARIANT_COUNT), 1);
    assert_eq!(next_variant(1, VARIANT_COUNT), 2);
    assert_eq!(next_variant(2, VARIANT_COUNT), 0);
}

#[test]
fn spawned_card_starts_at_rest_at_cursor() {
    let mut w = World::new(grid());
    w.resolve_cursor(Some(pt(3, -4)));
    w.spawn_card();
    let c = w.cards[0];
    assert_eq!(c.position, pt(3, -4));
    assert_eq!(c.motion, Motion::AtRest);
    assert_eq!(c.selection, Selection::Unselected);
    assert_eq!(c.pile, None);
    assert_eq!(c.scale, REST_SCALE);
}

#[test]
fn unresolved_cursor_keeps_last() {
    let mut w = World::new(grid());
    w.resolve_cursor(Some(pt(5, 6)));
    w.resolve_cursor(None);
    assert_eq!(w.cursor, pt(5, 6));
}

#[test]
fn bounds_follow_position_and_scale() {
    let mut w = World::new(grid());
    w.cards.push(Card { scale: DRAG_SCALE, ..card_at(pt(10, 20)) });
    w.cards.push(card_at(pt(-5, 0)));
    w.cards.push(card_at(pt(7, 7)));
    let sizes = vec![Some(ImageSize { w: 200, h: 280 }), Some(ImageSize { w: 200, h: 280 }), None];
    w.update_bounds(&sizes);
    assert_eq!(w.cards[0].bounds, Bounds { center: pt(10, 20), size: Size { w: 120 * UNIT, h: 168 * UNIT } });
    assert_eq!(w.cards[1].bounds, Bounds { center: pt(-5, 0), size: Size { w: 100 * UNIT, h: 140 * UNIT } });
    // Not loaded: the bounds stay as they were.
    assert_eq!(w.cards[2].bounds.size, Size { w: 100 * UNIT, h: 100 * UNIT });
}

#[test]
fn grabbing_a_placed_card_takes_it_out_of_its_pile() {
    let mut w = World::new(grid());
    w.cards.push(in_pile(0, 0));
    w.cards.push(in_pile(500, 500));
    let mut input = frame(Some(pt(0, 0)));
    input.pressed = true;
    w.step(&input);
    assert_eq!(w.cards[0].selection, Selection::Selected);
    assert_eq!(w.cards[0].pile, None);
    assert!(matches!(w.cards[0].motion, Motion::Dragging(_)));
    assert_eq!(w.cards[1].selection, Selection::Unselected);
    assert_eq!(w.cards[1].pile, Some(PileId { x: 500, y: 500 }));
    for c in &w.cards {
        if c.selection == Selection::Selected {
            assert_eq!(c.pile, None);
        }
    }
}

#[test]
fn release_lets_go_of_every_held_card() {
    let mut w = World::new(grid());
    w.cards.push(card_at(pt(0, 0)));
    w.cards.push(card_at(pt(1, 1)));
    w.select_cards(true, false);
    assert!(w.cards.iter().all(|c| c.selection == Selection::Selected));
    w.select_cards(false, true);
    assert!(w.cards.iter().all(|c| c.selection == Selection::Unselected));
}

fn held_stack(n: usize) -> World {
    let mut w = World::new(grid());
    for _ in 0..n {
        w.spawn_card();
    }
    w.select_cards(true, false);
    w
}

fn check_stack(n: usize) {
    let mut w = held_stack(n);
    let preview = w.drag_selected();
    assert_eq!(preview.is_some(), n > 0);
    for (i, c) in w.cards.iter().enumerate() {
        let i = i as i64;
        assert_eq!(c.z_index, (i + 1) as u64);
        // One frame towards offset i * STACK_STEP at rate (i + 1) / 10.
        let goal = i * STACK_STEP;
        let rate = if i + 1 < 10 { i + 1 } else { 10 };
        let step = (goal * rate + 9) / 10;
        assert_eq!(c.position, Point { x: step, y: step });
        assert_eq!(c.motion, Motion::Dragging(Point { x: 0, y: 0 }));
    }
}

#[test]
fn stack_of_zero() {
    check_stack(0);
}

#[test]
fn stack_of_one() {
    check_stack(1);
}

#[test]
fn stack_of_two() {
    check_stack(2);
}

#[test]
fn stack_of_five() {
    check_stack(5);
}

#[test]
fn stack_skips_unheld_cards() {
    let mut w = World::new(grid());
    w.cards.push(card_at(pt(0, 0)));
    w.cards.push(card_at(pt(1000, 1000)));
    w.cards.push(card_at(pt(0, 0)));
    w.select_cards(true, false);
    w.drag_selected();
    assert_eq!(w.cards[0].z_index, 1);
    assert_eq!(w.cards[1].z_index, 0);
    assert_eq!(w.cards[1].position, pt(1000, 1000));
    assert_eq!(w.cards[2].z_index, 2);
}

#[test]
fn preview_is_the_cell_under_the_pointer() {
    let mut w = held_stack(1);
    w.resolve_cursor(Some(pt(160, -10)));
    let preview = w.drag_selected();
    assert_eq!(preview, Some(Bounds { center: pt(225, -75), size: grid() }));
}

#[test]
fn released_card_arrives_in_its_slot() {
    let cell = Size { w: 200 * UNIT, h: 400 * UNIT };
    let mut c = Card { motion: Motion::Dragging(pt(100, 200)), ..card_at(pt(0, 0)) };
    let mut frames = 0;
    while c.motion != Motion::AtRest {
        c = c.place(cell);
        frames += 1;
        assert!(frames < 1000);
    }
    assert_eq!(c.pile, Some(PileId { x: 100, y: 200 }));
    assert_eq!(c.position.x / UNIT, 100);
    assert_eq!(c.position.y / UNIT, 200);
}

#[test]
fn occupancy_counts_cards_per_slot() {
    let cards = vec![in_pile(0, 0), in_pile(0, 0), in_pile(1, 0), in_pile(0, 0), card_at(pt(0, 0))];
    let table = pile_occupancy(&cards);
    assert_eq!(table.count(PileId { x: 0, y: 0 }), 3);
    assert_eq!(table.count(PileId { x: 1, y: 0 }), 1);
    assert_eq!(table.count(PileId { x: 5, y: 5 }), 0);
    assert_eq!(pile_markers(&cards), vec![PileId { x: 0, y: 0 }]);
}

#[test]
fn no_markers_without_piles() {
    let cards = vec![card_at(pt(0, 0)), in_pile(3, 3)];
    assert!(pile_markers(&cards).is_empty());
    assert!(pile_markers(&Vec::new()).is_empty());
}

#[test]
fn pile_id_from_point_and_back() {
    assert_eq!(PileId::new(Point { x: 100_500, y: -1 }), PileId { x: 100, y: -1 });
    assert_eq!(PileId { x: 75, y: -2 }.pos(), Point { x: 75_000, y: -2000 });
}

#[test]
fn settle_eases_resting_cards_only() {
    let mut w = World::new(grid());
    w.cards.push(Card { scale: DRAG_SCALE, ..card_at(pt(0, 0)) });
    w.cards.push(Card {
        scale: DRAG_SCALE,
        selection: Selection::Selected,
        motion: Motion::Dragging(pt(0, 0)),
        ..card_at(pt(0, 0))
    });
    w.settle_cards();
    assert_eq!(w.cards[0].scale, 580);
    assert_eq!(w.cards[1].scale, DRAG_SCALE);
}

#[test]
fn grab_drag_drop_and_rest() {
    let mut w = World::new(grid());
    // Spawn one card at the origin.
    let mut input = frame(None);
    input.spawn = true;
    w.step(&input);
    assert_eq!(w.cards.len(), 1);
    let sizes = vec![Some(ImageSize { w: 200, h: 280 })];

    // Press inside its bounds.
    let mut input = frame(Some(pt(10, 10)));
    input.pressed = true;
    input.image_sizes = sizes.clone();
    let out = w.step(&input);
    assert_eq!(w.cards[0].selection, Selection::Selected);
    assert!(out.preview.is_some());

    // Move the pointer.
    let mut input = frame(Some(pt(50, 50)));
    input.image_sizes = sizes.clone();
    w.step(&input);

    // Release.
    let mut input = frame(Some(pt(50, 50)));
    input.released = true;
    input.image_sizes = sizes.clone();
    let out = w.step(&input);
    assert_eq!(w.cards[0].selection, Selection::Unselected);
    assert_eq!(w.cards[0].motion, Motion::Dragging(pt(75, 75)));
    assert_eq!(out.preview, None);

    let mut frames = 0;
    while w.cards[0].motion != Motion::AtRest {
        let mut input = frame(Some(pt(50, 50)));
        input.image_sizes = sizes.clone();
        w.step(&input);
        frames += 1;
        assert!(frames < 1000);
    }
    assert_eq!(w.cards[0].pile, Some(PileId { x: 75, y: 75 }));
}

#[test]
fn dropping_a_stack_makes_a_marked_pile() {
    let mut w = World::new(grid());
    let mut input = frame(None);
    input.spawn = true;
    w.step(&input);
    w.step(&input);
    let mut input = frame(Some(pt(0, 0)));
    input.pressed = true;
    w.step(&input);
    assert!(w.cards.iter().all(|c| c.selection == Selection::Selected));
    let mut input = frame(Some(pt(0, 0)));
    input.released = true;
    w.step(&input);
    let mut out = w.step(&frame(None));
    let mut frames = 0;
    while w.cards.iter().any(|c| c.motion != Motion::AtRest) {
        out = w.step(&frame(None));
        frames += 1;
        assert!(frames < 1000);
    }
    assert_eq!(out.pile_markers, vec![PileId { x: 75, y: 75 }]);
}
