use metal_attention::kernels::command::FrameSlots;
use metal_attention::kernels::dispatch::{dispatch_1d, dispatch_2d, Grid, GridRule, Size3};

fn row(width: usize) -> Size3 {
    Size3 { width, height: 1, depth: 1 }
}

#[test]
fn three_frames_are_in_flight_before_one_has_to_wait() {
    let mut slots = FrameSlots::new();
    assert_eq!(slots.max_in_flight(), 3);
    assert!(slots.begin_frame());
    assert!(slots.begin_frame());
    assert!(slots.begin_frame());
    assert!(!slots.begin_frame());
    slots.complete_frame();
    assert!(slots.begin_frame());
    assert!(!slots.begin_frame());
}

#[test]
fn the_number_of_frames_can_be_chosen() {
    let mut slots = FrameSlots::with_in_flight(1);
    assert_eq!(slots.max_in_flight(), 1);
    assert!(slots.begin_frame());
    assert!(!slots.begin_frame());
    assert!(!FrameSlots::with_in_flight(0).begin_frame());
}

#[test]
fn rows_have_groups_of_up_to_256() {
    assert_eq!(dispatch_1d(1000, 1024), Grid::Threads { threads: row(1000), group: row(256) });
    assert_eq!(dispatch_1d(1000, 64), Grid::Threads { threads: row(1000), group: row(64) });
}

#[test]
fn planes_have_square_groups() {
    let plane = Size3 { width: 30, height: 20, depth: 1 };
    let square = |side: usize| Size3 { width: side, height: side, depth: 1 };
    assert_eq!(dispatch_2d(30, 20, 1024), Grid::Threads { threads: plane, group: square(16) });
    assert_eq!(dispatch_2d(30, 20, 255), Grid::Threads { threads: plane, group: square(15) });
    assert_eq!(dispatch_2d(30, 20, 256), Grid::Threads { threads: plane, group: square(16) });
    assert_eq!(dispatch_2d(30, 20, 3), Grid::Threads { threads: plane, group: square(1) });
}

#[test]
fn groups_follow_the_pipeline() {
    assert_eq!(
        GridRule::Covering { elements: 1000 }.resolve(256),
        Grid::Groups { groups: row(4), group: row(256) }
    );
    assert_eq!(
        GridRule::Covering { elements: 10 }.resolve(256),
        Grid::Groups { groups: row(1), group: row(10) }
    );
    assert_eq!(
        GridRule::GroupsUpTo { groups: row(7), limit: 100 }.resolve(64),
        Grid::Groups { groups: row(7), group: row(64) }
    );
    assert_eq!(
        GridRule::Groups { groups: row(7), group_width: 32 }.resolve(8),
        Grid::Groups { groups: row(7), group: row(32) }
    );
}
