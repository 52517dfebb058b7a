use chrono::Datelike;
use break_reminder::clock::{time_or_midnight, CalendarDate, ClockReading, TimeOfDay};
use break_reminder::schedule::{
    check_due_reminders, fire_due_reminders, reminders_from_rows, rows_from_reminders,
    seed_defaults, DayOfWeekMask, ReminderFields, ReminderRow, ScheduledReminder,
};
use break_reminder::settings::Settings;
use break_reminder::weekday::Weekday;

fn date(year: i32, month: u32, day: u32) -> CalendarDate {
    CalendarDate { year, month, day }
}

fn at(d: CalendarDate, h: u32, m: u32, s: u32, nanos: u32) -> ClockReading {
    ClockReading { date: d, secs_from_midnight: h * 3600 + m * 60 + s, nanos }
}

fn reminder(h: u32, m: u32, days: DayOfWeekMask, msg: &str) -> ScheduledReminder {
    ScheduledReminder {
        enabled: true,
        time: TimeOfDay { hour: h, minute: m },
        days,
        message: msg.to_string(),
        last_fired_date: None,
    }
}

fn settings_with(reminders: Vec<ScheduledReminder>, muted: bool) -> Settings {
    Settings { interval_minutes: 45, auto_start: true, play_sound: false, muted, scheduled_reminders: reminders }
}

/// The weekday that the reminder check takes for a date: the one day whose
/// single-day reminder fires at noon.
fn weekday_seen_by_check(d: CalendarDate) -> Option<Weekday> {
    let days = [Weekday::Mon, Weekday::Tue, Weekday::Wed, Weekday::Thu, Weekday::Fri, Weekday::Sat, Weekday::Sun];
    let mut seen = None;
    for w in days {
        let mut s = settings_with(vec![reminder(12, 0, DayOfWeekMask::day(w), "x")], false);
        if !check_due_reminders(&mut s, at(d, 12, 0, 0, 0)).is_empty() {
            assert!(seen.is_none());
            seen = Some(w);
        }
    }
    seen
}

#[test]
fn weekday_of_known_dates() {
    assert_eq!(weekday_seen_by_check(date(2026, 5, 2)), Some(Weekday::Sat));
    assert_eq!(weekday_seen_by_check(date(1970, 1, 1)), Some(Weekday::Thu));
    assert_eq!(weekday_seen_by_check(date(2000, 2, 29)), Some(Weekday::Tue));
    assert_eq!(weekday_seen_by_check(date(2024, 12, 25)), Some(Weekday::Wed));
    assert_eq!(weekday_seen_by_check(date(1, 1, 1)), Some(Weekday::Mon));
    // dates that do not exist fire nothing
    assert_eq!(weekday_seen_by_check(date(2023, 2, 29)), None);
    assert_eq!(weekday_seen_by_check(date(2023, 13, 1)), None);
    assert_eq!(weekday_seen_by_check(date(400000, 1, 1)), None);
}

#[test]
fn weekday_of_agrees_with_chrono() {
    let mut d = chrono::NaiveDate::from_ymd_opt(1899, 12, 25).unwrap();
    for _ in 0..300 {
        let ours = weekday_seen_by_check(date(d.year(), d.month(), d.day())).unwrap();
        let expected = match d.weekday() {
            chrono::Weekday::Mon => Weekday::Mon,
            chrono::Weekday::Tue => Weekday::Tue,
            chrono::Weekday::Wed => Weekday::Wed,
            chrono::Weekday::Thu => Weekday::Thu,
            chrono::Weekday::Fri => Weekday::Fri,
            chrono::Weekday::Sat => Weekday::Sat,
            chrono::Weekday::Sun => Weekday::Sun,
        };
        assert_eq!(ours, expected);
        d = d + chrono::Days::new(257);
    }
}

fn fields(time: &str, last: Option<&str>) -> ReminderFields {
    ReminderFields {
        enabled: true,
        time: time.to_string(),
        days: "All".to_string(),
        message: "m".to_string(),
        last_fired_date: last.map(|s| s.to_string()),
    }
}

#[test]
fn time_text_forms() {
    let r = |h: u32, m: u32| ScheduledReminder {
        enabled: true,
        time: TimeOfDay { hour: h, minute: m },
        days: DayOfWeekMask::all(),
        message: String::new(),
        last_fired_date: None,
    };
    assert_eq!(r(7, 5).to_fields().time, "07:05");
    assert_eq!(r(23, 59).to_fields().time, "23:59");
    assert_eq!(r(0, 0).to_fields().time, "00:00");
    let t = |s: &str| ScheduledReminder::from_fields(fields(s, None)).time;
    assert_eq!(t("11:55"), TimeOfDay { hour: 11, minute: 55 });
    assert_eq!(t("7:15"), TimeOfDay { hour: 7, minute: 15 });
    assert_eq!(t("99:99"), TimeOfDay { hour: 0, minute: 0 });
    assert_eq!(t("17:60"), TimeOfDay { hour: 0, minute: 0 });
    assert_eq!(t("noon"), TimeOfDay { hour: 0, minute: 0 });
    assert_eq!(time_or_midnight(None), TimeOfDay { hour: 0, minute: 0 });
    assert_eq!(time_or_midnight(Some(TimeOfDay { hour: 9, minute: 1 })), TimeOfDay { hour: 9, minute: 1 });
}

#[test]
fn date_text_forms() {
    let mut r = ScheduledReminder::from_fields(fields("08:00", None));
    r.last_fired_date = Some(date(2026, 5, 2));
    assert_eq!(r.to_fields().last_fired_date.as_deref(), Some("2026-05-02"));
    let d = |s: &str| ScheduledReminder::from_fields(fields("08:00", Some(s))).last_fired_date;
    assert_eq!(d("2026-05-02"), Some(date(2026, 5, 2)));
    assert_eq!(d("2015-09-31"), None);
    assert_eq!(d("yesterday"), None);
    // a year below 1000 is written with four digits and read back
    r.last_fired_date = Some(date(999, 1, 5));
    let f = r.to_fields();
    assert_eq!(f.last_fired_date.as_deref(), Some("0999-01-05"));
    assert_eq!(ScheduledReminder::from_fields(f).last_fired_date, Some(date(999, 1, 5)));
}

#[test]
fn record_round_trip() {
    let mut r = reminder(11, 55, DayOfWeekMask::weekdays(), "lunch");
    r.last_fired_date = Some(date(2026, 5, 2));
    let f = r.to_fields();
    assert_eq!(f.time, "11:55");
    assert_eq!(f.days, "Weekdays");
    assert_eq!(f.last_fired_date.as_deref(), Some("2026-05-02"));
    let back = ScheduledReminder::from_fields(f);
    assert_eq!(back.time, r.time);
    assert_eq!(back.days, r.days);
    assert_eq!(back.message, r.message);
    assert_eq!(back.last_fired_date, r.last_fired_date);
    assert!(back.enabled);
}

#[test]
fn unreadable_record_fields_fall_back() {
    let f = ReminderFields {
        enabled: false,
        time: "99:99".to_string(),
        days: "Mon | Fri".to_string(),
        message: "x".to_string(),
        last_fired_date: Some("not a date".to_string()),
    };
    let r = ScheduledReminder::from_fields(f);
    assert_eq!(r.time, TimeOfDay { hour: 0, minute: 0 });
    assert_eq!(r.days.bits(), 2 | 32);
    assert_eq!(r.last_fired_date, None);
    assert!(!r.enabled);
}

#[test]
fn seed_defaults_are_the_three_wpf_reminders() {
    let s = seed_defaults();
    assert_eq!(s.len(), 3);
    assert_eq!(s[0].time, TimeOfDay { hour: 11, minute: 55 });
    assert_eq!(s[0].days, DayOfWeekMask::weekdays());
    assert_eq!(s[0].message, "吃飯囉！");
    assert_eq!(s[1].time, TimeOfDay { hour: 19, minute: 0 });
    assert_eq!(s[1].message, "下班時間到！");
    assert_eq!(s[2].time, TimeOfDay { hour: 0, minute: 0 });
    assert_eq!(s[2].days, DayOfWeekMask::all());
    assert_eq!(s[2].message, "該睡覺了！");
    assert!(s.iter().all(|r| r.enabled && r.last_fired_date.is_none()));
}

#[test]
fn fires_within_two_minutes_only() {
    let sat = date(2026, 5, 2);
    let every = DayOfWeekMask::all();
    // one second before
    let mut rs = vec![reminder(12, 0, every, "a")];
    assert!(fire_due_reminders(&mut rs, at(sat, 11, 59, 59, 999_999_999), Weekday::Sat).is_empty());
    // exactly on time
    let mut rs = vec![reminder(12, 0, every, "a")];
    assert_eq!(fire_due_reminders(&mut rs, at(sat, 12, 0, 0, 0), Weekday::Sat), vec!["a".to_string()]);
    assert_eq!(rs[0].last_fired_date, Some(sat));
    // exactly two minutes late
    let mut rs = vec![reminder(12, 0, every, "a")];
    assert_eq!(fire_due_reminders(&mut rs, at(sat, 12, 2, 0, 0), Weekday::Sat).len(), 1);
    // a nanosecond later is too late
    let mut rs = vec![reminder(12, 0, every, "a")];
    assert!(fire_due_reminders(&mut rs, at(sat, 12, 2, 0, 1), Weekday::Sat).is_empty());
    assert_eq!(rs[0].last_fired_date, None);
}

#[test]
fn respects_days_enabled_and_last_fired() {
    let sat = date(2026, 5, 2);
    let mut disabled = reminder(12, 0, DayOfWeekMask::all(), "off");
    disabled.enabled = false;
    let mut fired = reminder(12, 0, DayOfWeekMask::all(), "done");
    fired.last_fired_date = Some(sat);
    let mut yesterday = reminder(12, 0, DayOfWeekMask::all(), "again");
    yesterday.last_fired_date = Some(date(2026, 5, 1));
    let mut rs = vec![
        reminder(12, 0, DayOfWeekMask::weekdays(), "weekday only"),
        disabled,
        fired,
        yesterday,
        reminder(12, 1, DayOfWeekMask::day(Weekday::Sat), "sat"),
    ];
    let msgs = fire_due_reminders(&mut rs, at(sat, 12, 1, 30, 0), Weekday::Sat);
    assert_eq!(msgs, vec!["again".to_string(), "sat".to_string()]);
    assert_eq!(rs[0].last_fired_date, None);
    assert_eq!(rs[3].last_fired_date, Some(sat));
    assert_eq!(rs[4].last_fired_date, Some(sat));
}

#[test]
fn check_twice_fires_once() {
    let sat = date(2026, 5, 2);
    let mut s = settings_with(vec![reminder(0, 0, DayOfWeekMask::all(), "sleep")], false);
    let first = check_due_reminders(&mut s, at(sat, 0, 0, 10, 0));
    assert_eq!(first, vec!["sleep".to_string()]);
    let second = check_due_reminders(&mut s, at(sat, 0, 1, 0, 0));
    assert!(second.is_empty());
    // the next day it fires again
    let sun = date(2026, 5, 3);
    assert_eq!(check_due_reminders(&mut s, at(sun, 0, 0, 30, 0)).len(), 1);
}

#[test]
fn check_uses_the_weekday_of_the_date() {
    // 2026-05-02 is a Saturday: a weekday reminder does not fire
    let mut s = settings_with(vec![reminder(11, 55, DayOfWeekMask::weekdays(), "lunch")], false);
    assert!(check_due_reminders(&mut s, at(date(2026, 5, 2), 11, 55, 0, 0)).is_empty());
    // 2026-05-04 is a Monday: it does
    assert_eq!(check_due_reminders(&mut s, at(date(2026, 5, 4), 11, 56, 0, 0)).len(), 1);
}

#[test]
fn muted_check_fires_nothing() {
    let mut s = settings_with(vec![reminder(12, 0, DayOfWeekMask::all(), "a")], true);
    assert!(check_due_reminders(&mut s, at(date(2026, 5, 2), 12, 0, 0, 0)).is_empty());
    assert_eq!(s.scheduled_reminders[0].last_fired_date, None);
}

#[test]
fn settings_window_rows() {
    let mut r = reminder(7, 5, DayOfWeekMask::from_flags(true, false, false, true, false, false, true), "hi");
    r.last_fired_date = Some(date(2026, 5, 2));
    let row = r.to_row();
    assert_eq!(row.time_text, "07:05");
    assert!(row.sun && row.wed && row.sat);
    assert!(!row.mon && !row.tue && !row.thu && !row.fri);
    let back = ScheduledReminder::from_row(row);
    assert_eq!(back.time, r.time);
    assert_eq!(back.days, r.days);
    assert_eq!(back.message, "hi");
    assert_eq!(back.last_fired_date, None);

    let d = ReminderRow::new_default();
    assert_eq!(d.time_text, "12:00");
    assert_eq!(d.message, "提醒訊息");
    let nr = ScheduledReminder::from_row(d);
    assert_eq!(nr.days, DayOfWeekMask::weekdays());
    assert_eq!(nr.time, TimeOfDay { hour: 12, minute: 0 });

    let mut bad = ReminderRow::new_default();
    bad.time_text = "99:99".to_string();
    assert_eq!(ScheduledReminder::from_row(bad).time, TimeOfDay { hour: 0, minute: 0 });
}

#[test]
fn rows_keep_list_order() {
    let seeds = seed_defaults();
    let rows = rows_from_reminders(&seeds);
    assert_eq!(rows.len(), 3);
    assert_eq!(rows[0].time_text, "11:55");
    assert_eq!(rows[2].time_text, "00:00");
    let back = reminders_from_rows(rows);
    assert_eq!(back.len(), 3);
    for (a, b) in back.iter().zip(seeds.iter()) {
        assert_eq!(a.time, b.time);
        assert_eq!(a.days, b.days);
        assert_eq!(a.message, b.message);
    }
    assert!(reminders_from_rows(vec![]).is_empty());
    assert_eq!(DayOfWeekMask::from_flags(true, true, true, true, true, true, true), DayOfWeekMask::all());
}
