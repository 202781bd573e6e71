use adit_ui::calendar::{
    date_of_day, default_log_pattern, effective_log_dir, effective_log_pattern, format_epoch_utc,
    format_mtime, format_mtime_at, host_of_endpoint, local_offset_secs, now_local_parts,
    offset_or_utc, render_log_name, render_log_name_at, sftp_date, sftp_date_at, LocalZone, LogDir,
    Moment,
};

#[test]
fn render_log_name_substitutes_name_and_host() {
    assert_eq!(render_log_name(&mut LocalZone::new(), "%N@%H.log", "web01", "root@10.0.0.5:22"), "web01@10.0.0.5.log");
    assert_eq!(render_log_name(&mut LocalZone::new(), "%H", "x", "COM3"), "COM3");
    let dated = render_log_name(&mut LocalZone::new(), "%Y-%M-%D", "x", "h");
    assert!(!dated.contains('%'));
    assert_eq!(dated.len(), "2026-07-08".len());
}

#[test]
fn format_epoch_utc_matches_known_timestamps() {
    assert_eq!(format_epoch_utc(0), "1970-01-01 00:00");
    assert_eq!(format_epoch_utc(1_609_459_200), "2021-01-01 00:00");
    assert_eq!(format_epoch_utc(1_703_980_800), "2023-12-31 00:00");
    assert_eq!(sftp_date(&mut LocalZone::new(), None), "—");
}

#[test]
fn dates_follow_the_calendar() {
    let leap = date_of_day(11_016);
    assert_eq!((leap.year, leap.month, leap.day), (2000, 2, 29));
    let next = date_of_day(11_017);
    assert_eq!((next.year, next.month, next.day), (2000, 3, 1));
    // 2100 is no leap year.
    let february = date_of_day(47_540);
    assert_eq!((february.year, february.month, february.day), (2100, 2, 28));
    let march = date_of_day(47_541);
    assert_eq!((march.year, march.month, march.day), (2100, 3, 1));
}

#[test]
fn days_agree_with_the_date_library() {
    for day in (0..3_000_000u64).step_by(997) {
        let ours = date_of_day(day);
        let theirs = time::Date::from_julian_day(2_440_588 + day as i32);
        if let Ok(theirs) = theirs {
            assert_eq!(ours.year as i32, theirs.year());
            assert_eq!(ours.month as u8, u8::from(theirs.month()));
            assert_eq!(ours.day as u8, theirs.day());
        }
    }
}

#[test]
fn times_are_shown_where_the_reader_is() {
    assert_eq!(format_mtime_at(0, 8 * 3600), "1970-01-01 08:00");
    assert_eq!(format_mtime_at(86_400, -3600), "1970-01-01 23:00");
    // Before the epoch there is nothing to show but its start.
    assert_eq!(format_mtime_at(0, -3600), "1970-01-01 00:00");
    assert_eq!(sftp_date_at(Some(0), 3600), "1970-01-01 01:00");
    assert_eq!(sftp_date_at(None, 3600), "—");
    let mut zone = LocalZone::new();
    let here = local_offset_secs(&mut zone);
    assert!(here.abs() <= 93_599);
    assert_eq!(format_mtime(&mut zone, 1_000_000), format_mtime_at(1_000_000, here));
}

#[test]
fn a_zone_that_is_not_known_counts_as_utc() {
    assert_eq!(offset_or_utc(Some(-3600)), -3600);
    assert_eq!(offset_or_utc(Some(0)), 0);
    assert_eq!(offset_or_utc(None), 0);
}

#[test]
fn a_zone_that_was_asked_once_is_kept() {
    let mut zone = LocalZone::new();
    // Nothing is asked for where there is nothing to show.
    assert_eq!(sftp_date(&mut zone, None), "—");
    assert_eq!(zone, LocalZone::new());
    let here = local_offset_secs(&mut zone);
    let kept = zone;
    assert_ne!(kept, LocalZone::new());
    assert_eq!(sftp_date(&mut zone, Some(1_000_000)), sftp_date_at(Some(1_000_000), here));
    assert!(now_local_parts(&mut zone).year >= 2024);
    assert_eq!(local_offset_secs(&mut zone), here);
    assert_eq!(zone, kept);
}

#[test]
fn the_clock_gives_a_moment_of_a_calendar() {
    let now = now_local_parts(&mut LocalZone::new());
    assert!(now.year >= 2024);
    assert!((1..=12).contains(&now.month));
    assert!((1..=31).contains(&now.day));
    assert!(now.hour < 24 && now.minute < 60 && now.second < 60);
}

const AT: Moment = Moment { year: 2026, month: 7, day: 8, hour: 9, minute: 5, second: 1 };

#[test]
fn a_log_name_holds_the_moment() {
    assert_eq!(
        render_log_name_at("%N-%Y%M%D-%h%m%s.log", "web", "h", AT),
        "web-20260708-090501.log"
    );
    assert_eq!(render_log_name_at("%Q", "web", "h", AT), "%Q");
}

#[test]
fn the_host_of_an_endpoint_has_neither_user_nor_port() {
    assert_eq!(host_of_endpoint("root@10.0.0.5:22"), "10.0.0.5");
    assert_eq!(host_of_endpoint("example.com:22"), "example.com");
    assert_eq!(host_of_endpoint("COM3"), "COM3");
}

#[test]
fn an_empty_choice_falls_back() {
    assert_eq!(effective_log_pattern("  "), default_log_pattern());
    assert_eq!(effective_log_pattern("%N.log"), "%N.log");
    assert!(matches!(effective_log_dir(""), LogDir::UnderConfig));
    assert!(matches!(effective_log_dir("/tmp"), LogDir::Chosen(dir) if dir == "/tmp"));
}
