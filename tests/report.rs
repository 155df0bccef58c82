use hellpoint_save::level::{get_player_level, LEVEL_OFFSET};
use hellpoint_save::save::{describe_save, report_line, select_save, HellpointSave, Player, SaveError};
use hellpoint_save::text::{format_time, pad_zeroes, split_time, to_decimal, to_signed_decimal};

fn save(name: &str, total_time: usize, stats: Vec<i64>) -> HellpointSave {
    HellpointSave { name: name.to_string(), total_time, player: Player { stats } }
}

#[test]
fn level_is_stat_sum_plus_offset() {
    assert_eq!(get_player_level(&Player { stats: vec![5, 3, 2] }), 3);
}

#[test]
fn level_of_no_stats_is_offset() {
    assert_eq!(get_player_level(&Player { stats: vec![] }), LEVEL_OFFSET as i128);
    assert_eq!(LEVEL_OFFSET, -7);
}

#[test]
fn level_with_negative_stats() {
    assert_eq!(get_player_level(&Player { stats: vec![-1, 2, -3] }), -9);
}

#[test]
fn level_does_not_overflow_on_extreme_stats() {
    let stats = vec![i64::MAX, i64::MAX, i64::MAX];
    assert_eq!(get_player_level(&Player { stats }), 3 * (i64::MAX as i128) - 7);
    let stats = vec![i64::MIN, i64::MIN];
    assert_eq!(get_player_level(&Player { stats }), 2 * (i64::MIN as i128) - 7);
}

#[test]
fn time_one_hour_one_minute_one_second() {
    assert_eq!(format_time(3661), "01:01:01");
}

#[test]
fn time_under_a_minute() {
    assert_eq!(format_time(59), "00:00:59");
}

#[test]
fn time_hundred_hours_is_not_truncated() {
    assert_eq!(format_time(360000), "100:00:00");
}

#[test]
fn time_zero() {
    assert_eq!(format_time(0), "00:00:00");
}

#[test]
fn split_time_parts() {
    assert_eq!(split_time(3661), (1, 1, 1));
    assert_eq!(split_time(7322), (2, 2, 2));
    assert_eq!(split_time(59), (0, 0, 59));
}

#[test]
fn pad_zeroes_widths() {
    assert_eq!(pad_zeroes(5, 2), "05");
    assert_eq!(pad_zeroes(0, 2), "00");
    assert_eq!(pad_zeroes(42, 2), "42");
    assert_eq!(pad_zeroes(123, 2), "123");
    assert_eq!(pad_zeroes(7, 4), "0007");
    assert_eq!(pad_zeroes(7, 0), "7");
}

#[test]
fn decimal_notation() {
    assert_eq!(to_decimal(0), "0");
    assert_eq!(to_decimal(1234567890), "1234567890");
    assert_eq!(to_decimal(u128::MAX), u128::MAX.to_string());
    assert_eq!(to_signed_decimal(-42), "-42");
    assert_eq!(to_signed_decimal(17), "17");
    assert_eq!(to_signed_decimal(i128::MIN), i128::MIN.to_string());
}

#[test]
fn report_line_format() {
    let s = save("Alice", 3661, vec![5, 3, 2]);
    assert_eq!(report_line(&s), "Alice (Level 3) 01:01:01");
}

#[test]
fn report_line_negative_level() {
    let s = save("Bob", 59, vec![1]);
    assert_eq!(report_line(&s), "Bob (Level -6) 00:00:59");
}

#[test]
fn select_without_name_takes_first() {
    let saves = vec![save("C", 3, vec![]), save("B", 2, vec![]), save("A", 1, vec![])];
    assert_eq!(select_save(&saves, None), Ok(0));
}

#[test]
fn select_by_name() {
    let saves = vec![save("C", 3, vec![]), save("B", 2, vec![]), save("A", 1, vec![])];
    let name = "A".to_string();
    assert_eq!(select_save(&saves, Some(&name)), Ok(2));
}

#[test]
fn select_by_duplicate_name_takes_newest() {
    let saves = vec![save("C", 3, vec![]), save("A", 2, vec![]), save("A", 1, vec![])];
    let name = "A".to_string();
    assert_eq!(select_save(&saves, Some(&name)), Ok(1));
}

#[test]
fn select_absent_name_is_not_found() {
    let saves = vec![save("C", 3, vec![]), save("B", 2, vec![])];
    let name = "Z".to_string();
    assert_eq!(select_save(&saves, Some(&name)), Err(SaveError::NotFound));
    let name = "c".to_string();
    assert_eq!(select_save(&saves, Some(&name)), Err(SaveError::NotFound));
}

#[test]
fn select_from_no_saves_is_not_found() {
    let saves: Vec<HellpointSave> = vec![];
    assert_eq!(select_save(&saves, None), Err(SaveError::NotFound));
    let name = "A".to_string();
    assert_eq!(select_save(&saves, Some(&name)), Err(SaveError::NotFound));
}

#[test]
fn describe_selected_save() {
    let saves = vec![save("C", 59, vec![1, 1]), save("A", 360000, vec![10, 10])];
    assert_eq!(describe_save(&saves, None), Ok("C (Level -5) 00:00:59".to_string()));
    let name = "A".to_string();
    assert_eq!(describe_save(&saves, Some(&name)), Ok("A (Level 13) 100:00:00".to_string()));
    let name = "B".to_string();
    assert_eq!(describe_save(&saves, Some(&name)), Err(SaveError::NotFound));
}
