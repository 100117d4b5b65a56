use spindle_extensions::clock::{build_clock_message, format_clock_label, resolve_item, LocalDateTime};

fn timestamp() -> LocalDateTime {
    LocalDateTime::new(2026, 6, 8, 9, 4, 5).expect("valid local time")
}

#[test]
fn clock_label_matches_previous_shell_format() {
    assert_eq!(format_clock_label(&timestamp()), "06/08 Mon 09:04:05");
}

#[test]
fn clock_message_sets_target_item_label() {
    let request = build_clock_message("clock", &timestamp());

    assert_eq!(
        request.args(),
        ["--set", "clock", "label=06/08 Mon 09:04:05"]
    );
}

#[test]
fn clock_label_pads_and_names_weekday() {
    let new_year = LocalDateTime::new(2024, 12, 31, 23, 59, 59).expect("valid local time");
    let leap_day = LocalDateTime::new(2024, 2, 29, 0, 0, 0).expect("valid local time");

    assert_eq!(format_clock_label(&new_year), "12/31 Tue 23:59:59");
    assert_eq!(format_clock_label(&leap_day), "02/29 Thu 00:00:00");

    let first_day = LocalDateTime::new(1, 1, 1, 7, 8, 9).expect("valid local time");
    let gregorian = LocalDateTime::new(1600, 3, 1, 12, 0, 0).expect("valid local time");
    let far = LocalDateTime::new(-44, 3, 15, 1, 2, 3).expect("valid local time");
    assert_eq!(format_clock_label(&first_day), "01/01 Mon 07:08:09");
    assert_eq!(format_clock_label(&gregorian), "03/01 Wed 12:00:00");
    assert_eq!(format_clock_label(&far), "03/15 Thu 01:02:03");
}

#[test]
fn impossible_local_times_are_refused() {
    assert!(LocalDateTime::new(2023, 2, 29, 0, 0, 0).is_none());
    assert!(LocalDateTime::new(1900, 2, 29, 0, 0, 0).is_none());
    assert!(LocalDateTime::new(2000, 2, 29, 0, 0, 0).is_some());
    assert!(LocalDateTime::new(2026, 4, 31, 0, 0, 0).is_none());
    assert!(LocalDateTime::new(2026, 13, 1, 0, 0, 0).is_none());
    assert!(LocalDateTime::new(2026, 0, 1, 0, 0, 0).is_none());
    assert!(LocalDateTime::new(2026, 1, 0, 0, 0, 0).is_none());
    assert!(LocalDateTime::new(2026, 1, 1, 24, 0, 0).is_none());
    assert!(LocalDateTime::new(2026, 1, 1, 0, 60, 0).is_none());
    assert!(LocalDateTime::new(2026, 1, 1, 0, 0, 60).is_none());
}

#[test]
fn clock_item_prefers_item_then_name_then_env() {
    let s = |v: &str| Some(String::from(v));

    assert_eq!(resolve_item(s("a"), s("b"), s("c")), s("a"));
    assert_eq!(resolve_item(None, s("b"), s("c")), s("b"));
    assert_eq!(resolve_item(None, None, s("c")), s("c"));
    assert_eq!(resolve_item(None, None, None), None);
}
