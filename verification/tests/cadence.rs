use castle_game::cadence::Cooldown;
use castle_game::physics::DeltaTime;

fn shots_over(interval_millis: u64, step_millis: u64, total_millis: u64) -> Vec<u64> {
    let mut timer = Cooldown::new(interval_millis * 1_000_000);
    let dt = DeltaTime::new(step_millis);
    let mut fired_at = Vec::new();
    let mut now = 0;
    while now < total_millis {
        now += step_millis;
        if timer.tick(&dt, true) {
            fired_at.push(now);
        }
    }
    fired_at
}

#[test]
fn a_new_timer_waits_a_whole_interval() {
    let mut timer = Cooldown::new(1_000_000_000);
    assert_eq!(timer, Cooldown { interval: 1_000_000_000, elapsed: 0 });
    assert!(!timer.tick(&DeltaTime::new(999), true));
    assert_eq!(timer.elapsed, 999_000_000);
    assert!(timer.tick(&DeltaTime::new(1), true));
    assert_eq!(timer.elapsed, 0);
}

#[test]
fn a_ready_timer_fires_at_once() {
    let mut timer = Cooldown::ready(1_000_000_000);
    assert!(timer.tick(&DeltaTime::new(0), true));
    assert_eq!(timer.elapsed, 0);
    assert!(!timer.tick(&DeltaTime::new(500), true));
}

#[test]
fn a_timer_does_not_fire_unasked_but_keeps_the_time() {
    let mut timer = Cooldown::new(100);
    assert!(!timer.tick(&DeltaTime::new(5_000), false));
    assert_eq!(timer.elapsed, 5_000_000_000);
    assert!(timer.tick(&DeltaTime::new(0), true));
}

#[test]
fn the_elapsed_time_stops_counting_at_the_top() {
    let mut timer = Cooldown { interval: u64::MAX, elapsed: u64::MAX - 1 };
    assert!(!timer.tick(&DeltaTime::new(u64::MAX), false));
    assert_eq!(timer.elapsed, u64::MAX);
    assert!(timer.tick(&DeltaTime::new(0), true));
}

#[test]
fn the_number_of_shots_does_not_depend_on_the_frame_rate() {
    let fine = shots_over(500, 10, 5_000);
    let coarse = shots_over(500, 50, 5_000);
    let coarser = shots_over(500, 250, 5_000);
    assert_eq!(fine.len(), 10);
    assert_eq!(coarse.len(), 10);
    assert_eq!(coarser.len(), 10);
    assert_eq!(fine, coarse);
    assert_eq!(fine, coarser);
}

#[test]
fn never_two_shots_within_one_interval() {
    for step in [1_u64, 7, 16, 33, 120, 499, 500, 501, 1_700] {
        let fired_at = shots_over(500, step, 20_000);
        assert!(fired_at.len() as u64 * 500 <= 20_000 + step, "step {}", step);
        assert!(fired_at[0] >= 500);
        for pair in fired_at.windows(2) {
            assert!(pair[1] - pair[0] >= 500, "step {}: {:?}", step, pair);
        }
    }
}
