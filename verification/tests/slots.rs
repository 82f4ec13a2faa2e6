use boxcar::slots::{draw_from, judge_draw, take_slot, Draw, MAX_DEPTH};
use std::cell::Cell;

#[test]
fn draws_are_limited() {
    assert_eq!(MAX_DEPTH, 1024);
    assert_eq!(judge_draw(0, true), Draw::Use);
    assert_eq!(judge_draw(0, false), Draw::Again);
    assert_eq!(judge_draw(1024, false), Draw::Again);
    assert_eq!(judge_draw(1025, false), Draw::GiveUp);
    assert_eq!(judge_draw(1025, true), Draw::Use);
}

#[test]
fn slots_are_taken_once() {
    let mut slots: Vec<u16> = Vec::new();
    assert!(take_slot(&mut slots, 4));
    assert!(take_slot(&mut slots, 0));
    assert!(!take_slot(&mut slots, 4));
    assert_eq!(slots, vec![4, 0]);
}

#[test]
fn first_vacant_draw_is_taken() {
    let draws: Vec<u16> = vec![4, 4, 9, 7];
    let mut slots: Vec<u16> = vec![4];
    assert_eq!(draw_from(&mut slots, |i| draws[i as usize]), Some(9));
    assert_eq!(slots, vec![4, 9]);
    assert_eq!(draw_from(&mut slots, |i| draws[i as usize]), Some(7));
    assert_eq!(slots, vec![4, 9, 7]);
}

#[test]
fn last_draw_still_counts() {
    let mut slots: Vec<u16> = vec![4];
    assert_eq!(draw_from(&mut slots, |i| if i == 1025 { 5 } else { 4 }), Some(5));
    assert_eq!(slots, vec![4, 5]);
}

#[test]
fn drawing_ends_when_all_draws_miss() {
    let count = Cell::new(0);
    let mut slots: Vec<u16> = vec![4];
    let slot = draw_from(&mut slots, |_| {
        count.set(count.get() + 1);
        4
    });
    assert_eq!(slot, None);
    assert_eq!(slots, vec![4]);
    assert_eq!(count.get(), 1026);
}
