use weight_tracker::scroll::{ScrollState, DWELL_MS};

#[test]
fn a_message_that_fits_does_not_scroll() {
    let mut state = ScrollState::new();
    for now in 0..50u64 {
        state.tick(20, 20, now * 16);
        assert_eq!(state, ScrollState::new());
    }
    let mut moved = ScrollState { offset: 7, reversed: true, pause_until: Some(5) };
    moved.tick(10, 30, 0);
    assert_eq!(moved, ScrollState { offset: 0, reversed: false, pause_until: None });
}

#[test]
fn offset_rises_to_the_maximum_then_falls_back() {
    let mut state = ScrollState::new();
    let mut now: u64 = 0;
    let mut seen = vec![state.offset];
    // up: one character per tick
    for expected in 1..=10usize {
        now += 16;
        state.tick(30, 20, now);
        assert_eq!(state, ScrollState { offset: expected, reversed: false, pause_until: None });
        seen.push(state.offset);
    }
    // at the end: turn round and rest
    now += 16;
    state.tick(30, 20, now);
    assert_eq!(state, ScrollState { offset: 10, reversed: true, pause_until: Some(now + DWELL_MS) });
    let rest_end = now + DWELL_MS;
    while now + 16 <= rest_end {
        now += 16;
        state.tick(30, 20, now);
        assert_eq!(state, ScrollState { offset: 10, reversed: true, pause_until: Some(rest_end) });
    }
    now += 16;
    state.tick(30, 20, now);
    assert_eq!(state, ScrollState { offset: 10, reversed: true, pause_until: None });
    // down
    for expected in (0..10usize).rev() {
        now += 16;
        state.tick(30, 20, now);
        assert_eq!(state, ScrollState { offset: expected, reversed: true, pause_until: None });
        seen.push(state.offset);
    }
    // at the start: turn round and rest
    now += 16;
    state.tick(30, 20, now);
    assert_eq!(state, ScrollState { offset: 0, reversed: false, pause_until: Some(now + DWELL_MS) });
    now += DWELL_MS + 1;
    state.tick(30, 20, now);
    assert_eq!(state, ScrollState { offset: 0, reversed: false, pause_until: None });
    now += 16;
    state.tick(30, 20, now);
    assert_eq!(state.offset, 1);
    let up: Vec<usize> = (0..=10).collect();
    let down: Vec<usize> = (0..10).rev().collect();
    assert_eq!(seen, [up, down].concat());
}

#[test]
fn a_rest_ends_only_after_its_time() {
    let mut state = ScrollState { offset: 4, reversed: false, pause_until: Some(1000) };
    state.tick(30, 20, 999);
    assert_eq!(state.pause_until, Some(1000));
    state.tick(30, 20, 1000);
    assert_eq!(state.pause_until, Some(1000));
    state.tick(30, 20, 1001);
    assert_eq!(state, ScrollState { offset: 4, reversed: false, pause_until: None });
}

#[test]
fn an_offset_beyond_the_maximum_is_brought_back() {
    let mut state = ScrollState { offset: 50, reversed: true, pause_until: None };
    state.tick(30, 20, 0);
    assert_eq!(state, ScrollState { offset: 9, reversed: true, pause_until: None });
    let mut resting = ScrollState { offset: 50, reversed: false, pause_until: Some(10) };
    resting.tick(30, 20, 0);
    assert_eq!(resting, ScrollState { offset: 10, reversed: false, pause_until: Some(10) });
}

#[test]
fn the_rest_does_not_overflow_the_clock() {
    let mut state = ScrollState { offset: 10, reversed: false, pause_until: None };
    state.tick(30, 20, u64::MAX - 5);
    assert_eq!(state, ScrollState { offset: 10, reversed: true, pause_until: Some(u64::MAX) });
}
