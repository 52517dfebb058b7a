use break_reminder::autostart::{apply, delete_failure_reported, RunKeyChange, VALUE_NAME};
use break_reminder::schedule::{seed_defaults, DayOfWeekMask};
use break_reminder::settings::{
    default_auto_start, interval_from_input, load_from, records_of, settings_from_records, Settings,
};
use break_reminder::state::{AppState, ReminderRequest, SettingsForm, TimerCommand, TrayReaction};
use break_reminder::tray::{
    load_icon, menu_command, mute_tooltip, opens_settings, refresh_mute_visuals, text_equals,
    MenuIds, TrayCommand,
};

fn state(muted: bool, play_sound: bool) -> AppState {
    let mut s = Settings::default();
    s.muted = muted;
    s.play_sound = play_sound;
    AppState::new(s)
}

#[test]
fn default_settings() {
    let s = Settings::default();
    assert_eq!(s.interval_minutes, 45);
    assert!(s.auto_start);
    assert!(!s.play_sound);
    assert!(!s.muted);
    assert!(s.scheduled_reminders.is_empty());
    assert!(default_auto_start());
}

#[test]
fn load_seeds_missing_reminders() {
    let (s, seeded) = load_from(None);
    assert!(seeded);
    assert_eq!(s.interval_minutes, 45);
    assert_eq!(s.scheduled_reminders.len(), 3);
    let mut file = Settings::default();
    file.interval_minutes = 20;
    file.scheduled_reminders = vec![seed_defaults().remove(2)];
    let (s, seeded) = load_from(Some(file));
    assert!(!seeded);
    assert_eq!(s.interval_minutes, 20);
    assert_eq!(s.scheduled_reminders.len(), 1);
    assert_eq!(s.scheduled_reminders[0].days, DayOfWeekMask::all());
}

#[test]
fn interval_input_is_at_least_one() {
    assert_eq!(interval_from_input(0), 1);
    assert_eq!(interval_from_input(-5), 1);
    assert_eq!(interval_from_input(1), 1);
    assert_eq!(interval_from_input(240), 240);
}

#[test]
fn timers_follow_interval_and_mute() {
    let mut st = state(false, false);
    assert_eq!(st.restart_timer(), TimerCommand::Start { period_secs: 45 * 60 });
    assert!(st.timer_running);
    assert_eq!(st.restart_schedule_timer(), TimerCommand::Start { period_secs: 30 });
    let mut muted = state(true, false);
    assert_eq!(muted.restart_timer(), TimerCommand::Stop);
    assert_eq!(muted.restart_schedule_timer(), TimerCommand::Stop);
    assert!(!muted.timer_running && !muted.schedule_timer_running);
}

#[test]
fn one_reminder_window_at_a_time() {
    let mut st = state(false, true);
    st.restart_timer();
    match st.show_reminder(Some("hello".to_string())) {
        ReminderRequest::OpenNew { message, timer } => {
            assert_eq!(message.as_deref(), Some("hello"));
            assert_eq!(timer, TimerCommand::Stop);
        }
        ReminderRequest::RaiseExisting => panic!("expected a new window"),
    }
    assert!(!st.timer_running);
    assert!(st.reminder_opened()); // sound on
    assert!(matches!(st.show_reminder(None), ReminderRequest::RaiseExisting));
    assert!(st.reminder_open);
    // dismissal restarts a full interval
    assert_eq!(st.reminder_dismissed(), TimerCommand::Start { period_secs: 45 * 60 });
    assert!(!st.reminder_open && st.timer_running);
}

#[test]
fn no_sound_when_disabled_and_failed_window_restarts_timer() {
    let mut st = state(false, false);
    assert!(matches!(st.show_reminder(None), ReminderRequest::OpenNew { .. }));
    assert_eq!(st.reminder_open_failed(), TimerCommand::Start { period_secs: 2700 });
    assert!(!st.reminder_open);
    assert!(!st.reminder_opened());
}

#[test]
fn break_now_works_while_muted() {
    let mut st = state(true, false);
    match st.on_tray_command(TrayCommand::BreakNow) {
        TrayReaction::Reminder(ReminderRequest::OpenNew { message, .. }) => assert!(message.is_none()),
        _ => panic!("expected a reminder"),
    }
}

#[test]
fn toggle_mute_twice() {
    let mut st = state(false, false);
    let m = st.toggle_mute();
    assert!(m.muted && st.settings.muted);
    assert_eq!(m.timer, TimerCommand::Stop);
    assert_eq!(m.schedule_timer, TimerCommand::Stop);
    assert!(!m.check_due_now);
    assert!(m.visuals.checked);
    let m = st.toggle_mute();
    assert!(!m.muted && !st.settings.muted);
    assert!(m.check_due_now);
    assert_eq!(m.timer, TimerCommand::Start { period_secs: 2700 });
    assert_eq!(m.visuals.tooltip, "休息提醒小幫手 (雙擊開啟設定)");
}

#[test]
fn settings_form_is_applied() {
    let mut st = state(false, false);
    let r = st.apply_settings_form(SettingsForm { interval_input: 0, auto_start: false, play_sound: true, muted: false, reminders: vec![] });
    assert_eq!(st.settings.interval_minutes, 1);
    assert!(!st.settings.auto_start && st.settings.play_sound);
    assert_eq!(r.timer, TimerCommand::Start { period_secs: 60 });
    assert!(r.check_due_now);
    assert!(!r.auto_start);
    let r = st.apply_settings_form(SettingsForm { interval_input: 30, auto_start: true, play_sound: false, muted: true, reminders: seed_defaults().iter().map(|r| r.to_row()).collect() });
    assert_eq!(r.timer, TimerCommand::Stop);
    assert!(!r.check_due_now);
    assert!(r.visuals.checked);
    assert_eq!(st.show_settings(), 30);
    assert_eq!(st.settings.scheduled_reminders.len(), 3);
    assert_eq!(st.settings.scheduled_reminders[1].time.hour, 19);
}

#[test]
fn tray_commands() {
    let mut st = state(false, false);
    assert!(matches!(st.on_tray_command(TrayCommand::OpenSettings), TrayReaction::ShowSettings { interval_minutes: 45 }));
    assert!(matches!(st.on_tray_command(TrayCommand::Exit), TrayReaction::Quit));
    assert!(matches!(st.on_tray_command(TrayCommand::ToggleMute), TrayReaction::Mute(_)));
    assert!(st.settings.muted);
    let ids = MenuIds { mute: "1".into(), settings: "2".into(), break_now: "3".into(), exit: "4".into() };
    assert_eq!(menu_command("1", &ids), Some(TrayCommand::ToggleMute));
    assert_eq!(menu_command("2", &ids), Some(TrayCommand::OpenSettings));
    assert_eq!(menu_command("3", &ids), Some(TrayCommand::BreakNow));
    assert_eq!(menu_command("4", &ids), Some(TrayCommand::Exit));
    assert_eq!(menu_command("5", &ids), None);
    assert!(text_equals("abc", "abc") && !text_equals("abc", "abd") && !text_equals("ab", "abc"));
    assert!(opens_settings(true, true, true));
    assert!(!opens_settings(true, false, true));
    assert!(!opens_settings(false, true, true));
    assert!(!opens_settings(true, true, false));
}

#[test]
fn mute_visuals() {
    assert_eq!(mute_tooltip(true), "休息提醒小幫手 (請勿打擾中)");
    assert_eq!(mute_tooltip(false), "休息提醒小幫手 (雙擊開啟設定)");
    let v = refresh_mute_visuals(true);
    assert!(v.checked);
    assert_eq!(v.tooltip, "休息提醒小幫手 (請勿打擾中)");
    assert!(!refresh_mute_visuals(false).checked);
}

#[test]
fn autostart_run_key() {
    match apply(true, Some(r"C:\Apps\break.exe")) {
        RunKeyChange::SetValue { data } => assert_eq!(data, "\"C:\\Apps\\break.exe\""),
        other => panic!("unexpected {other:?}"),
    }
    assert!(matches!(apply(true, None), RunKeyChange::Skip));
    assert!(matches!(apply(false, Some("x")), RunKeyChange::DeleteValue));
    assert_eq!(VALUE_NAME, "BreakReminderRs");
    assert!(!delete_failure_reported(true));
    assert!(delete_failure_reported(false));
}

#[test]
fn icon_decoding() {
    assert!(load_icon(&[1, 2, 3]).is_none());
    // a 2x1 icon holding a PNG: one opaque red pixel, one half-transparent blue one
    let ico: [u8; 93] = [
        0x00, 0x00, 0x01, 0x00, 0x01, 0x00, 0x02, 0x01, 0x00, 0x00, 0x01, 0x00, 0x20, 0x00, 0x47,
        0x00, 0x00, 0x00, 0x16, 0x00, 0x00, 0x00, 0x89, 0x50, 0x4E, 0x47, 0x0D, 0x0A, 0x1A, 0x0A,
        0x00, 0x00, 0x00, 0x0D, 0x49, 0x48, 0x44, 0x52, 0x00, 0x00, 0x00, 0x02, 0x00, 0x00, 0x00,
        0x01, 0x08, 0x06, 0x00, 0x00, 0x00, 0xF4, 0x22, 0x7F, 0x8A, 0x00, 0x00, 0x00, 0x0E, 0x49,
        0x44, 0x41, 0x54, 0x78, 0x9C, 0x63, 0xF8, 0xCF, 0xC0, 0x00, 0x42, 0x0D, 0x00, 0x0F, 0x7A,
        0x03, 0x7E, 0x77, 0xE9, 0x7F, 0x97, 0x00, 0x00, 0x00, 0x00, 0x49, 0x45, 0x4E, 0x44, 0xAE,
        0x42, 0x60, 0x82,
    ];
    let img = load_icon(&ico).expect("icon decodes");
    assert_eq!((img.width, img.height), (2, 1));
    assert_eq!(img.pixels, vec![255, 0, 0, 255, 0, 0, 255, 128]);
}

#[test]
fn tray_mute_click_keeps_everything_else() {
    let mut st = state(false, true);
    st.settings.scheduled_reminders = seed_defaults();
    st.reminder_open = true;
    match st.on_tray_command(TrayCommand::ToggleMute) {
        TrayReaction::Mute(m) => {
            assert!(m.muted);
            assert!(m.visuals.checked);
            assert_eq!(m.visuals.tooltip, "休息提醒小幫手 (請勿打擾中)");
            assert!(!m.check_due_now);
        }
        _ => panic!("expected a mute change"),
    }
    assert!(st.settings.muted);
    assert!(st.settings.play_sound);
    assert_eq!(st.settings.scheduled_reminders.len(), 3);
    assert!(st.reminder_open);
    assert!(!st.timer_running && !st.schedule_timer_running);
    match st.on_tray_command(TrayCommand::ToggleMute) {
        TrayReaction::Mute(m) => {
            assert!(!m.visuals.checked);
            assert!(m.check_due_now);
        }
        _ => panic!("expected a mute change"),
    }
    assert!(st.timer_running && st.schedule_timer_running);
}

#[test]
fn settings_round_trip_through_records() {
    let mut s = Settings::default();
    s.interval_minutes = 25;
    s.auto_start = false;
    s.play_sound = true;
    s.muted = true;
    s.scheduled_reminders = seed_defaults();
    s.scheduled_reminders[1].last_fired_date =
        Some(break_reminder::clock::CalendarDate { year: 2026, month: 5, day: 2 });
    let records = records_of(&s);
    assert_eq!(records[0].days, "Weekdays");
    assert_eq!(records[2].days, "All");
    let read = settings_from_records(25, false, true, true, records);
    let (loaded, seeded) = load_from(Some(read));
    assert!(!seeded);
    assert_eq!(loaded.interval_minutes, 25);
    assert!(!loaded.auto_start && loaded.play_sound && loaded.muted);
    assert_eq!(loaded.scheduled_reminders.len(), 3);
    for (a, b) in loaded.scheduled_reminders.iter().zip(s.scheduled_reminders.iter()) {
        assert_eq!(a.enabled, b.enabled);
        assert_eq!(a.time, b.time);
        assert_eq!(a.days, b.days);
        assert_eq!(a.message, b.message);
        assert_eq!(a.last_fired_date, b.last_fired_date);
    }
}
