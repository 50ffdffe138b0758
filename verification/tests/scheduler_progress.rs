use a_star_wallpaper::extract::RoadSegment;
use a_star_wallpaper::scheduler::DrawScheduler;

fn seg(n: i64) -> RoadSegment {
    RoadSegment { start_x: n, start_y: n, end_x: n + 1, end_y: n + 1 }
}

fn segments(n: i64) -> Vec<RoadSegment> {
    (0..n).map(seg).collect()
}

#[test]
fn batches_respect_the_budget_and_cover_everything() {
    let all = segments(5);
    let mut scheduler = DrawScheduler::new(all.clone());
    assert_eq!(scheduler.total(), 5);
    assert!(!scheduler.is_complete());

    let mut released: Vec<RoadSegment> = Vec::new();
    let mut non_empty_calls = 0;
    while !scheduler.is_complete() {
        let batch = scheduler.advance(2);
        assert!(batch.len() >= 1);
        assert!(batch.len() <= 2);
        non_empty_calls += 1;
        released.extend(batch);
    }
    // ceil(5 / 2) == 3 non-empty calls, concatenation in original order.
    assert_eq!(non_empty_calls, 3);
    assert_eq!(released, all);
}

#[test]
fn first_batches_are_full_slices() {
    let all = segments(5);
    let mut scheduler = DrawScheduler::new(all.clone());
    assert_eq!(scheduler.advance(2), vec![seg(0), seg(1)]);
    assert_eq!(scheduler.advance(2), vec![seg(2), seg(3)]);
    assert_eq!(scheduler.advance(2), vec![seg(4)]);
    assert!(scheduler.is_complete());
}

#[test]
fn completion_is_terminal_and_idempotent() {
    let mut scheduler = DrawScheduler::new(segments(3));
    let first = scheduler.advance(10);
    assert_eq!(first.len(), 3);
    assert!(scheduler.is_complete());
    // Advancing in the terminal state is a no-op returning nothing.
    assert_eq!(scheduler.advance(10), Vec::new());
    assert_eq!(scheduler.advance(1), Vec::new());
    assert!(scheduler.is_complete());
}

#[test]
fn empty_sequence_is_complete_immediately() {
    let mut scheduler = DrawScheduler::new(Vec::new());
    assert!(scheduler.is_complete());
    assert_eq!(scheduler.advance(4), Vec::new());
}

#[test]
fn budget_of_one_releases_one_per_tick() {
    let all = segments(4);
    let mut scheduler = DrawScheduler::new(all.clone());
    for expected in &all {
        let batch = scheduler.advance(1);
        assert_eq!(batch.len(), 1);
        assert_eq!(batch[0], *expected);
    }
    assert!(scheduler.is_complete());
}
