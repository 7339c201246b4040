use vstd::prelude::*;

verus! {

/// Which of the four movement keys are held.
#[derive(Clone, Copy, Debug, PartialEq, Eq, Structural)]
pub struct Keys {
    pub up: bool,
    pub down: bool,
    pub left: bool,
    pub right: bool,
}

/// An inclusive run of sprite-sheet frames.
#[derive(Clone, Copy, Debug, PartialEq, Eq, Structural)]
pub struct FrameRange {
    pub first: usize,
    pub last: usize,
}

/// What the held keys ask of the player sprite this frame.
#[derive(Clone, Copy, Debug, PartialEq, Eq, Structural)]
pub struct Steering {
    /// Direction on each axis, each in `-1..=1`; down and right win over up
    /// and left when both are held.
    pub dx: i64,
    pub dy: i64,
    /// `-1` to face left, `1` to face right, `0` to keep the current facing.
    pub facing: i64,
    /// The frames to cycle through.
    pub frames: FrameRange,
}

pub open spec fn run_frames() -> FrameRange {
    FrameRange { first: 8, last: 13 }
}

pub open spec fn idle_frames() -> FrameRange {
    FrameRange { first: 0, last: 3 }
}

pub open spec fn steer_spec(k: Keys) -> Steering {
    let dy: i64 = if k.down {
        -1i64
    } else if k.up {
        1i64
    } else {
        0i64
    };
    let dx: i64 = if k.right {
        1i64
    } else if k.left {
        -1i64
    } else {
        0i64
    };
    Steering {
        dx,
        dy,
        facing: dx,
        frames: if dx == 0 {
            idle_frames()
        } else {
            run_frames()
        },
    }
}

/// Turns the held keys into a direction, a facing and an animation: running
/// frames while moving sideways, idle frames otherwise.
pub fn steer(k: Keys) -> (r: Steering)
    ensures
        r == steer_spec(k),
{
    let mut dy: i64 = 0;
    if k.up {
        dy = 1;
    }
    if k.down {
        dy = -1;
    }
    let mut dx: i64 = 0;
    if k.left {
        dx = -1;
    }
    if k.right {
        dx = 1;
    }
    let frames = if dx == 0 {
        FrameRange { first: 0, last: 3 }
    } else {
        FrameRange { first: 8, last: 13 }
    };
    Steering { dx, dy, facing: dx, frames }
}

/// The frame after `index` in `range`, going back to the first after the last.
pub fn next_frame(index: usize, range: FrameRange) -> (r: usize)
    ensures
        r == (if index >= range.last {
            range.first
        } else {
            (index + 1) as usize
        }),
{
    if index >= range.last {
        range.first
    } else {
        index + 1
    }
}

} // verus!
