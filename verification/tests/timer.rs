use ray_tracing::timer::{Tick, Timer};

#[test]
fn new_timer_is_run_down() {
    let timer = Timer::new(10, 1);
    assert_eq!(timer.period(), 10);
    assert_eq!(timer.delta(), 1);
    assert_eq!(timer.time_left(), 0);
}

#[test]
fn wind_up_sets_the_whole_period() {
    let mut timer = Timer::new(10, 2);
    timer.wind_up();
    assert_eq!(timer.time_left(), 10);
    assert_eq!(timer.period(), 10);
    assert_eq!(timer.delta(), 2);
}

#[test]
fn first_tick_reports_nothing_done() {
    let mut timer = Timer::new(4, 1);
    timer.wind_up();
    assert_eq!(timer.tick(), Tick { percent: 0, done: false });
    assert_eq!(timer.time_left(), 3);
}

#[test]
fn ticks_report_whole_percentages() {
    let mut timer = Timer::new(3, 1);
    timer.wind_up();
    assert_eq!(timer.tick(), Tick { percent: 0, done: false });
    assert_eq!(timer.tick(), Tick { percent: 33, done: false });
    assert_eq!(timer.tick(), Tick { percent: 66, done: true });
    assert_eq!(timer.time_left(), 0);
}

#[test]
fn percentage_is_cut_not_rounded() {
    let mut timer = Timer::new(7, 1);
    timer.wind_up();
    let mut seen = Vec::new();
    for _ in 0..7 {
        seen.push(timer.tick().percent);
    }
    assert_eq!(seen, vec![0, 14, 28, 42, 57, 71, 85]);
}

#[test]
fn percentage_is_exact_where_doubles_would_fall_short() {
    let mut timer = Timer::new(100, 1);
    timer.wind_up();
    for row in 0..100u8 {
        let tick = timer.tick();
        assert_eq!(tick.percent, row);
        assert_eq!(tick.done, row == 99);
    }
}

#[test]
fn done_comes_with_the_last_tick_only() {
    let mut timer = Timer::new(675, 1);
    timer.wind_up();
    let mut done = 0;
    for row in 0..675usize {
        let tick = timer.tick();
        assert_eq!(usize::from(tick.percent), row * 100 / 675);
        if tick.done {
            done += 1;
            assert_eq!(row, 674);
        }
    }
    assert_eq!(done, 1);
}

#[test]
fn larger_steps_run_down_sooner() {
    let mut timer = Timer::new(10, 5);
    timer.wind_up();
    assert_eq!(timer.tick(), Tick { percent: 0, done: false });
    assert_eq!(timer.tick(), Tick { percent: 50, done: true });
}

#[test]
fn standing_still_reports_the_same_again() {
    let mut timer = Timer::new(8, 0);
    assert_eq!(timer.tick(), Tick { percent: 100, done: true });
    timer.wind_up();
    assert_eq!(timer.tick(), Tick { percent: 0, done: false });
    assert_eq!(timer.tick(), Tick { percent: 0, done: false });
}

#[test]
fn huge_period_does_not_overflow() {
    let mut timer = Timer::new(usize::MAX, 1);
    timer.wind_up();
    assert_eq!(timer.tick(), Tick { percent: 0, done: false });
    assert_eq!(timer.time_left(), usize::MAX - 1);
}
