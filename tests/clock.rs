use agent_economy::clock::MiscTime;
use agent_economy::component::ComponentPrice;

#[test]
fn clock_starts_at_six_in_the_morning() {
    let t = MiscTime::default();
    assert_eq!((t.year, t.month, t.day, t.hour, t.mnt, t.scnd, t.am), (0, 9, 1, 6, 0, 0, true));
}

#[test]
fn clock_reports_completed_minutes() {
    let mut t = MiscTime::default();
    for _ in 0..59 {
        assert!(!t.tick());
    }
    assert!(t.tick());
    assert_eq!((t.hour, t.mnt, t.scnd), (6, 1, 0));
}

#[test]
fn clock_flips_half_day_and_turns_the_day() {
    let mut t = MiscTime { year: 0, month: 2, day: 5, hour: 11, mnt: 59, scnd: 59, am: true };
    assert!(t.tick());
    assert_eq!((t.day, t.hour, t.mnt, t.scnd, t.am), (5, 0, 0, 0, false));
    let mut t = MiscTime { year: 0, month: 2, day: 5, hour: 11, mnt: 59, scnd: 59, am: false };
    assert!(t.tick());
    assert_eq!((t.day, t.hour, t.am), (6, 0, true));
}

#[test]
fn clock_turns_month_and_year() {
    let mut t = MiscTime { year: 3, month: 2, day: 30, hour: 11, mnt: 59, scnd: 59, am: false };
    t.tick();
    assert_eq!((t.year, t.month, t.day), (3, 3, 1));
    let mut t = MiscTime { year: 3, month: 4, day: 30, hour: 11, mnt: 59, scnd: 59, am: false };
    t.tick();
    assert_eq!((t.year, t.month, t.day), (4, 1, 1));
    let mut t = MiscTime { year: 0, month: 9, day: 30, hour: 11, mnt: 59, scnd: 59, am: false };
    t.tick();
    assert_eq!((t.year, t.month, t.day), (1, 1, 1));
}

#[test]
fn fresh_price_record_is_all_dirty_with_zero_quotes() {
    let p = ComponentPrice::new();
    assert_eq!(p.update, [true; 4]);
    assert_eq!(p.buy, [0; 4]);
    assert_eq!(p.sell, [0; 4]);
}
