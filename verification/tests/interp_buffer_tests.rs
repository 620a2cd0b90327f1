use predict_core::body::BodyState;
use predict_core::config::TickClock;
use predict_core::input::{InputBuffer, InputSnapshot};
use predict_core::interp::{Interpolator, visual_correction};
use predict_core::vec2::Vec2i;

fn up_only() -> InputSnapshot {
    InputSnapshot { up: true, down: false, left: false, right: false, shoot: false }
}

fn released() -> InputSnapshot {
    InputSnapshot { up: false, down: false, left: false, right: false, shoot: false }
}

fn at(x: i64, y: i64) -> BodyState {
    BodyState { pos: Vec2i { x, y }, vel: Vec2i { x: 0, y: 0 }, rot: 0, ang: 0 }
}

#[test]
fn buffer_distinguishes_missing_from_released() {
    let mut b = InputBuffer::new();
    b.write(4, released());
    // Tick 4 holds an explicit all-released snapshot; tick 5 holds nothing.
    assert_eq!(b.read(4), Some(released()));
    assert_eq!(b.read(5), None);
}

#[test]
fn buffer_overwrites_same_tick() {
    let mut b = InputBuffer::new();
    b.write(4, released());
    b.write(4, up_only());
    assert_eq!(b.read(4), Some(up_only()));
}

#[test]
fn buffer_evicts_tick_sharing_a_slot() {
    let mut b = InputBuffer::new();
    b.write(2, up_only());
    b.write(66, released());
    assert_eq!(b.read(2), None);
    assert_eq!(b.read(66), Some(released()));
}

#[test]
fn hold_last_uses_most_recent_earlier_snapshot() {
    // Input for tick 7 is missing but tick 6 held `up`: simulation at 7
    // uses `up`, never a fabricated "all released".
    let mut b = InputBuffer::new();
    b.write(6, up_only());
    assert_eq!(b.resolve_input(7), up_only());
    // Even several ticks later the held snapshot persists.
    assert_eq!(b.resolve_input(20), up_only());
    // A tick before the first known snapshot has nothing to hold.
    assert_eq!(b.resolve_input(5), released());
}

#[test]
fn interpolation_midpoint() {
    // Confirmed snapshots at ticks 10 and 11: sampling halfway returns the
    // midpoint of the two positions.
    let mut it = Interpolator::new();
    it.push_confirmed(10, &at(0, 0));
    it.push_confirmed(11, &at(1000, 2000));
    let s = it.sample(500).unwrap();
    assert_eq!(s.pos, Vec2i { x: 500, y: 1000 });
}

#[test]
fn interpolation_endpoints() {
    let mut it = Interpolator::new();
    it.push_confirmed(10, &at(-400, 600));
    it.push_confirmed(11, &at(800, -1000));
    assert_eq!(it.sample(0).unwrap().pos, Vec2i { x: -400, y: 600 });
    assert_eq!(it.sample(1000).unwrap().pos, Vec2i { x: 800, y: -1000 });
}

#[test]
fn interpolation_holds_single_snapshot() {
    let mut it = Interpolator::new();
    assert!(it.sample(500).is_none());
    it.push_confirmed(10, &at(123, 456));
    assert_eq!(it.sample(500).unwrap().pos, Vec2i { x: 123, y: 456 });
}

#[test]
fn interpolation_ignores_out_of_order_snapshots() {
    let mut it = Interpolator::new();
    it.push_confirmed(10, &at(0, 0));
    it.push_confirmed(12, &at(1200, 0));
    // An older or duplicate arrival must not disturb the held pair.
    it.push_confirmed(11, &at(999_999, 999_999));
    it.push_confirmed(12, &at(999_999, 999_999));
    let s = it.sample(500).unwrap();
    assert_eq!(s.pos, Vec2i { x: 600, y: 0 });
}

#[test]
fn visual_correction_eases_toward_corrected_state() {
    let shown = at(0, 0);
    let corrected = at(4000, -2000);
    // A quarter of the way: display only, the corrected state itself is
    // what simulation continues from.
    let blended = visual_correction(&shown, &corrected, 250);
    assert_eq!(blended.pos, Vec2i { x: 1000, y: -500 });
    let done = visual_correction(&shown, &corrected, 1000);
    assert_eq!(done.pos, corrected.pos);
}

#[test]
fn tick_clock_advances_monotonically() {
    let mut c = TickClock::start_at(5);
    assert_eq!(c.current(), 5);
    c.advance();
    c.advance();
    assert_eq!(c.current(), 7);
}
