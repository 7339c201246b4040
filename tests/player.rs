use card_sandbox::player::{next_frame, steer, FrameRange, Keys};

fn keys(up: bool, down: bool, left: bool, right: bool) -> Keys {
    Keys { up, down, left, right }
}

#[test]
fn steering_picks_direction_and_frames() {
    let s = steer(keys(false, false, false, false));
    assert_eq!((s.dx, s.dy, s.facing), (0, 0, 0));
    assert_eq!(s.frames, FrameRange { first: 0, last: 3 });

    let s = steer(keys(true, false, true, false));
    assert_eq!((s.dx, s.dy, s.facing), (-1, 1, -1));
    assert_eq!(s.frames, FrameRange { first: 8, last: 13 });

    let s = steer(keys(true, true, true, true));
    assert_eq!((s.dx, s.dy, s.facing), (1, -1, 1));

    let s = steer(keys(false, true, false, false));
    assert_eq!((s.dx, s.dy), (0, -1));
    assert_eq!(s.frames, FrameRange { first: 0, last: 3 });
}

#[test]
fn frames_cycle_within_range() {
    let run = FrameRange { first: 8, last: 13 };
    assert_eq!(next_frame(8, run), 9);
    assert_eq!(next_frame(12, run), 13);
    assert_eq!(next_frame(13, run), 8);
    assert_eq!(next_frame(20, run), 8);
}
