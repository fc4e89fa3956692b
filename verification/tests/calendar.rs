use chrono::{Datelike, NaiveDate};
use iced_longbridge::calendar::{last_day_of_month, month_grid, month_name, weekday_to_idx, Weekday};

fn sakamoto(y: i64, m: i64, d: i64) -> i64 {
    let t = [0, 3, 2, 5, 0, 3, 5, 1, 4, 6, 2, 4];
    let yy = if m < 3 { y - 1 } else { y };
    let s = (yy + yy.div_euclid(4) - yy.div_euclid(100) + yy.div_euclid(400) + t[(m - 1) as usize] + d).rem_euclid(7);
    (s + 6) % 7
}

#[test]
fn month_names() {
    assert_eq!(month_name(1), "January");
    assert_eq!(month_name(12), "December");
    assert_eq!(month_name(0), "?");
    assert_eq!(month_name(13), "?");
}

#[test]
fn weekday_columns() {
    assert_eq!(weekday_to_idx(Weekday::Mon), 0);
    assert_eq!(weekday_to_idx(Weekday::Sun), 6);
}

#[test]
fn days_per_month() {
    assert_eq!(last_day_of_month(2024, 2), 29);
    assert_eq!(last_day_of_month(2023, 2), 28);
    assert_eq!(last_day_of_month(1900, 2), 28);
    assert_eq!(last_day_of_month(2000, 2), 29);
    assert_eq!(last_day_of_month(2024, 4), 30);
    assert_eq!(last_day_of_month(2024, 12), 31);
    assert_eq!(last_day_of_month(2024, 0), 31);
}

#[test]
fn grid_of_february_2024() {
    let g = month_grid(2024, 2);
    assert_eq!(g.leading, 3);
    assert_eq!(g.days, 29);
    assert_eq!(g.total_cells, 35);
    assert_eq!(g.day_at(2), None);
    assert_eq!(g.day_at(3), Some(1));
    assert_eq!(g.day_at(31), Some(29));
    assert_eq!(g.day_at(32), None);
}

#[test]
fn weekday_formula_matches_chrono() {
    for y in [-262143i32, -4000, -1, 0, 1, 1582, 1900, 1970, 2000, 2024, 2100, 262142] {
        for m in 1..=12u32 {
            for d in [1u32, 15, 28] {
                let date = NaiveDate::from_ymd_opt(y, m, d).unwrap();
                assert_eq!(
                    date.weekday().num_days_from_monday() as i64,
                    sakamoto(y as i64, m as i64, d as i64),
                    "{}-{}-{}",
                    y,
                    m,
                    d
                );
            }
        }
    }
}

#[test]
fn every_day_in_its_weekday_column() {
    for (y, m) in [(2024i32, 1u32), (2024, 2), (1999, 12), (2025, 6)] {
        let g = month_grid(y, m);
        assert_eq!(g.total_cells % 7, 0);
        for d in 1..=g.days {
            let cell = g.leading + d as usize - 1;
            assert_eq!(g.day_at(cell), Some(d));
            let wd = NaiveDate::from_ymd_opt(y, m, d).unwrap().weekday().num_days_from_monday();
            assert_eq!((cell % 7) as u32, wd);
        }
    }
}
