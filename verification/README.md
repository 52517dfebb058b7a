# Break reminder

A tray application that reminds the user to take breaks at a regular interval
and fires named reminders at set times on chosen days of the week.

`src/` is the verified library:

- `weekday.rs`, `day_text.rs`, `schedule.rs`: the day-of-week mask, its text
  form in the settings file (with the proof that reading back the written text
  gives the same mask), the scheduled-reminder model and the due check.
- `clock.rs`: times and dates as plain values, and what chrono computes on them.
- `settings.rs`: the settings, their defaults and what happens on load.
- `state.rs`: the application's decisions as a state machine (timers, the
  reminder window, "do not disturb", the settings form, the tray menu).
- `tray.rs`, `autostart.rs`: tray tooltip and menu dispatch, the icon image, and
  the Run-key entry for auto-start.

`app/` is the Windows program around it: the Slint windows and timers, the tray
icon, the settings file (serde), the registry and the alert sound.
