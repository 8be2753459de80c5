use onepage::clock::{format_clock_time, format_hour_minute, format_long_date, format_month_day, local_wall_clock, WallClock};

fn clock(year: i32, month: u32, day: u32, hour: u32, minute: u32, second: u32, nanosecond: u32, weekday_from_sunday: u32) -> WallClock {
    WallClock { year, month, day, hour, minute, second, nanosecond, weekday_from_sunday }
}

#[test]
fn time_of_day_is_zero_padded() {
    let c = clock(2024, 3, 5, 7, 9, 4, 0, 2);
    assert_eq!(format_clock_time(&c), "07:09:04");
    assert_eq!(format_hour_minute(&c), "07:09");
    assert_eq!(format_month_day(&c), "03月05日");
}

#[test]
fn leap_second_shows_as_sixty() {
    let c = clock(2016, 12, 31, 23, 59, 59, 1_000_000_000, 6);
    assert_eq!(format_clock_time(&c), "23:59:60");
}

#[test]
fn long_date_with_weekday() {
    assert_eq!(format_long_date(&clock(2024, 3, 5, 0, 0, 0, 0, 2)), "2024年03月05日 Tuesday");
    assert_eq!(format_long_date(&clock(2023, 12, 31, 0, 0, 0, 0, 0)), "2023年12月31日 Sunday");
    assert_eq!(format_long_date(&clock(2024, 1, 6, 0, 0, 0, 0, 6)), "2024年01月06日 Saturday");
}

#[test]
fn years_outside_four_digits_carry_a_sign() {
    assert_eq!(format_long_date(&clock(999, 1, 1, 0, 0, 0, 0, 1)), "0999年01月01日 Monday");
    assert_eq!(format_long_date(&clock(0, 1, 1, 0, 0, 0, 0, 3)), "0000年01月01日 Wednesday");
    assert_eq!(format_long_date(&clock(-5, 1, 1, 0, 0, 0, 0, 4)), "-0005年01月01日 Thursday");
    assert_eq!(format_long_date(&clock(-12345, 1, 1, 0, 0, 0, 0, 5)), "-12345年01月01日 Friday");
    assert_eq!(format_long_date(&clock(12345, 1, 1, 0, 0, 0, 0, 1)), "+12345年01月01日 Monday");
}

#[test]
fn local_clock_fields_are_in_range() {
    let c = local_wall_clock();
    assert!((1..=12).contains(&c.month));
    assert!((1..=31).contains(&c.day));
    assert!(c.hour < 24 && c.minute < 60 && c.second < 60);
    assert!(c.weekday_from_sunday < 7);
    assert!(c.year >= 2000);
}
