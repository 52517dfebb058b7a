use break_reminder::schedule::DayOfWeekMask;
use break_reminder::weekday::Weekday;

fn mask(bits: u8) -> DayOfWeekMask {
    DayOfWeekMask::from_bits_retain(bits)
}

#[test]
fn writes_aliases() {
    assert_eq!(DayOfWeekMask::empty().to_wpf_string(), "None");
    assert_eq!(DayOfWeekMask::all().to_wpf_string(), "All");
    assert_eq!(DayOfWeekMask::weekdays().to_wpf_string(), "Weekdays");
}

#[test]
fn writes_days_in_calendar_order() {
    let mut m = DayOfWeekMask::day(Weekday::Fri);
    m.insert(DayOfWeekMask::day(Weekday::Mon));
    m.insert(DayOfWeekMask::day(Weekday::Sun));
    assert_eq!(m.to_wpf_string(), "Sun, Mon, Fri");
    assert_eq!(DayOfWeekMask::day(Weekday::Sat).to_wpf_string(), "Sat");
    // weekend
    assert_eq!(mask(1 | 64).to_wpf_string(), "Sun, Sat");
    // six weekdays is not an alias
    assert_eq!(mask(62 | 64).to_wpf_string(), "Mon, Tue, Wed, Thu, Fri, Sat");
}

#[test]
fn reads_aliases_and_names() {
    assert_eq!(DayOfWeekMask::from_wpf_string("All").bits(), 127);
    assert_eq!(DayOfWeekMask::from_wpf_string("Weekdays").bits(), 62);
    assert_eq!(DayOfWeekMask::from_wpf_string("None").bits(), 0);
    assert_eq!(DayOfWeekMask::from_wpf_string("").bits(), 0);
    assert_eq!(DayOfWeekMask::from_wpf_string("Mon, Tue, Fri").bits(), 2 | 4 | 32);
}

#[test]
fn reads_pipe_separated_names() {
    assert_eq!(DayOfWeekMask::from_wpf_string("Mon | Wed").bits(), 2 | 8);
    assert_eq!(DayOfWeekMask::from_wpf_string("Sat|Sun").bits(), 64 | 1);
}

#[test]
fn all_anywhere_gives_every_day() {
    assert_eq!(DayOfWeekMask::from_wpf_string("Mon, All").bits(), 127);
    assert_eq!(DayOfWeekMask::from_wpf_string("bogus, All, Tue").bits(), 127);
}

#[test]
fn unknown_tokens_and_case_are_skipped() {
    assert_eq!(DayOfWeekMask::from_wpf_string("Mon, Funday").bits(), 2);
    assert_eq!(DayOfWeekMask::from_wpf_string("mon").bits(), 0);
    assert_eq!(DayOfWeekMask::from_wpf_string("Weekdays, Sat").bits(), 126);
}

#[test]
fn trims_unicode_white_space() {
    assert_eq!(DayOfWeekMask::from_wpf_string("\t Mon \n,\u{3000}Thu\u{a0}").bits(), 2 | 16);
    // a space inside a word is not trimmed away
    assert_eq!(DayOfWeekMask::from_wpf_string("M on").bits(), 0);
}

#[test]
fn round_trip_of_every_mask() {
    for bits in 0u8..128 {
        let m = mask(bits);
        assert_eq!(DayOfWeekMask::from_wpf_string(&m.to_wpf_string()), m, "bits {bits}");
    }
}

#[test]
fn matches_each_weekday() {
    let m = DayOfWeekMask::weekdays();
    assert!(m.matches(Weekday::Mon));
    assert!(m.matches(Weekday::Fri));
    assert!(!m.matches(Weekday::Sat));
    assert!(!m.matches(Weekday::Sun));
    assert!(DayOfWeekMask::all().matches(Weekday::Sun));
    assert!(!DayOfWeekMask::empty().matches(Weekday::Wed));
    for w in [Weekday::Mon, Weekday::Tue, Weekday::Wed, Weekday::Thu, Weekday::Fri, Weekday::Sat, Weekday::Sun] {
        assert_eq!(m.matches(w), m.contains(DayOfWeekMask::day(w)));
    }
}

#[test]
fn set_operations() {
    let a = DayOfWeekMask::day(Weekday::Mon);
    let b = DayOfWeekMask::day(Weekday::Tue);
    let u = a.union(b);
    assert_eq!(u.bits(), 6);
    assert!(u.contains(a));
    assert!(!a.contains(u));
    assert!(DayOfWeekMask::empty().is_empty());
    assert!(!u.is_empty());
    assert!(DayOfWeekMask::all().contains(DayOfWeekMask::weekdays()));
}

#[test]
fn skipped_tokens_are_reported_in_order() {
    assert_eq!(DayOfWeekMask::skipped_day_tokens("Mon, Funday , xx|Tue"), vec!["Funday".to_string(), "xx".to_string()]);
    assert!(DayOfWeekMask::skipped_day_tokens("None, , Weekdays, Sat").is_empty());
    // reading stops at "All": later tokens are not looked at
    assert_eq!(DayOfWeekMask::skipped_day_tokens("oops, All, later"), vec!["oops".to_string()]);
    assert_eq!(DayOfWeekMask::skipped_day_tokens(" mon "), vec!["mon".to_string()]);
    assert!(DayOfWeekMask::skipped_day_tokens("").is_empty());
}
