use thermal_viewer::auto_display_range_controller::AutoDisplayRangeController;
use thermal_viewer::temperature::{Temp, TempRange};

fn range(min: i64, max: i64) -> TempRange {
    TempRange::new(Temp::new(min), Temp::new(max))
}

#[test]
fn a_new_controller_shows_zero_to_fifty_degrees_celsius() {
    let c = AutoDisplayRangeController::new();
    assert_eq!(c.current(), range(17482, 20682));
    assert_eq!(c.current().min, Temp::from_celsius(0));
    assert_eq!(c.current().max, Temp::from_celsius(50_000));
    assert_eq!(c.display_range(), range(17482, 20682));
}

#[test]
fn a_range_that_does_not_press_never_sets_the_display_range_off() {
    let mut c = AutoDisplayRangeController::new();
    // Inside the display range, and within the allowed room of both ends.
    let captured = range(17500, 20600);
    for _ in 0..200 {
        assert_eq!(c.compute_after(captured, 16_000), range(17482, 20682));
        assert_eq!(c.current(), range(17482, 20682));
    }
    assert_eq!(c.compute_after(captured, 10_000_000), range(17482, 20682));
}

#[test]
fn a_range_at_the_edge_of_the_allowed_room_does_not_press() {
    let mut c = AutoDisplayRangeController::new();
    let captured = range(17482 + 128, 20682 - 128);
    for _ in 0..100 {
        assert_eq!(c.compute_after(captured, 100_000), range(17482, 20682));
    }
}

#[test]
fn pressure_is_borne_up_to_the_threshold() {
    let mut c = AutoDisplayRangeController::new();
    let captured = range(30000, 31000);
    for _ in 0..9 {
        assert_eq!(c.compute_after(captured, 100_000), range(17482, 20682));
    }
    // 900 ms are borne; the next call goes over.
    assert_eq!(c.compute_after(captured, 100_000), range(19972, 22758));
}

#[test]
fn a_range_that_presses_for_good_is_reached_with_headroom() {
    let mut c = AutoDisplayRangeController::new();
    let captured = range(30000, 31000);
    let mut seen = Vec::new();
    for _ in 0..16 {
        seen.push(c.compute_after(captured, 100_000));
    }
    assert_eq!(seen[9], range(19972, 22758));
    assert_eq!(seen[10], range(23957, 26080));
    assert_eq!(seen[11], range(27544, 29070));
    assert_eq!(seen[12], range(29457, 30665));
    // 900 ms of pressure and 500 ms on the way: the target is reached.
    assert_eq!(seen[13], range(30000 - 64, 31000 + 64));
    assert_eq!(seen[14], range(30000 - 64, 31000 + 64));
    assert_eq!(seen[15], range(30000 - 64, 31000 + 64));
    assert!(c.current().contains_range(range(30000 - 64, 31000 + 64)));
}

#[test]
fn one_long_call_reaches_the_target_at_once() {
    let mut c = AutoDisplayRangeController::new();
    let captured = range(10000, 12000);
    assert_eq!(c.compute_after(captured, 2_000_000), range(10000 - 64, 12000 + 64));
    assert_eq!(c.compute_after(captured, 0), range(10000 - 64, 12000 + 64));
}

#[test]
fn the_way_ends_where_the_pressure_ceases() {
    let mut c = AutoDisplayRangeController::new();
    let captured = range(30000, 31000);
    let mut shown = c.current();
    for _ in 0..199 {
        shown = c.compute_after(captured, 16_000);
    }
    // In small steps the display range comes within the allowed room of the
    // captured range before it is at the target, and rests there.
    assert_eq!(shown, range(29880, 31017));
    assert!(shown.contains_range(captured));
    assert!(!shown.contains_range(range(30000 - 64, 31000 + 64)));
}

#[test]
fn a_narrow_range_is_handed_out_with_the_least_span() {
    let mut c = AutoDisplayRangeController::new();
    let captured = range(18000, 18000);
    let mut shown = c.current();
    for _ in 0..19 {
        shown = c.compute_after(captured, 100_000);
    }
    assert_eq!(c.current(), range(18000 - 64, 18000 + 64));
    assert_eq!(shown, range(18000 - 64, 18000 - 64 + 320));
    assert_eq!(c.display_range(), shown);
}

#[test]
fn pressure_that_ceases_is_forgotten() {
    let mut c = AutoDisplayRangeController::new();
    let pressing = range(30000, 31000);
    let resting = range(17500, 20600);
    for _ in 0..8 {
        c.compute_after(pressing, 100_000);
    }
    c.compute_after(resting, 100_000);
    // The count starts again: 900 ms more are borne.
    for _ in 0..9 {
        assert_eq!(c.compute_after(pressing, 100_000), range(17482, 20682));
    }
    assert_eq!(c.compute_after(pressing, 100_000), range(19972, 22758));
}

#[test]
fn a_way_is_given_up_when_the_pressure_ceases() {
    let mut c = AutoDisplayRangeController::new();
    let pressing = range(30000, 31000);
    for _ in 0..10 {
        c.compute_after(pressing, 100_000);
    }
    assert_eq!(c.current(), range(19972, 22758));
    // A range that fits the display range as it stands now stops it there.
    let fitting = range(20000, 22700);
    for _ in 0..20 {
        assert_eq!(c.compute_after(fitting, 100_000), range(19972, 22758));
    }
}

#[test]
fn the_first_call_by_the_clock_counts_no_time() {
    let mut c = AutoDisplayRangeController::new();
    let captured = range(30000, 31000);
    assert_eq!(c.compute(captured), range(17482, 20682));
    assert_eq!(c.tick() / 1_000_000_000, 0);
}

#[test]
fn times_add_up_without_overflow() {
    let mut c = AutoDisplayRangeController::new();
    let captured = range(30000, 31000);
    assert_eq!(c.compute_after(captured, u64::MAX), range(30000 - 64, 31000 + 64));
    let mut c = AutoDisplayRangeController::new();
    c.compute_after(captured, 1);
    assert_eq!(c.compute_after(captured, u64::MAX), range(30000 - 64, 31000 + 64));
}
