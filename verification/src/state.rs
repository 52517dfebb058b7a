//! The application's decisions, as a state machine: what happens to the timers,
//! the reminder window and the settings on each event. The caller performs the
//! commands (timers, windows, sound, file) and reports back what came of them.
use vstd::prelude::*;
use crate::settings::{Settings, interval_from_input};
use crate::schedule::{ReminderRow, from_row_result, reminders_from_rows};
use crate::tray::{MuteVisuals, TrayCommand, refresh_mute_visuals, spec_mute_tooltip};

verus! {

/// What to do with a timer.
#[derive(Clone, Copy, PartialEq, Eq, Structural, Debug)]
pub enum TimerCommand {
    /// (Re)start the timer, repeating with this period.
    Start { period_secs: u64 },
    /// Stop the timer.
    Stop,
}

/// The period of the scheduled-reminder check.
pub open spec fn schedule_period_secs() -> u64 {
    30
}

/// What restarting the interval timer does under these settings: stop it while
/// muted, else run it with a period of the interval in minutes.
pub open spec fn interval_timer_command(s: Settings) -> TimerCommand {
    if s.muted {
        TimerCommand::Stop
    } else {
        TimerCommand::Start { period_secs: (s.interval_minutes * 60) as u64 }
    }
}

/// What restarting the schedule timer does under these settings: stop it while
/// muted, else run it every 30 seconds.
pub open spec fn schedule_timer_command(s: Settings) -> TimerCommand {
    if s.muted {
        TimerCommand::Stop
    } else {
        TimerCommand::Start { period_secs: schedule_period_secs() }
    }
}

/// The state of the application apart from its windows and timers themselves.
pub struct AppState {
    pub settings: Settings,
    /// A reminder window is on screen.
    pub reminder_open: bool,
    /// The interval timer runs.
    pub timer_running: bool,
    /// The scheduled-reminder timer runs.
    pub schedule_timer_running: bool,
}

/// What a request to show a reminder asks of the caller.
#[derive(Clone, Debug)]
pub enum ReminderRequest {
    /// A reminder window is already on screen: show it again; the message is dropped.
    RaiseExisting,
    /// Stop the interval timer, then create a reminder window with this message
    /// (none: the default text) and report whether it opened.
    OpenNew { message: Option<String>, timer: TimerCommand },
}

/// What toggling "do not disturb" asks of the caller, besides saving the settings.
#[derive(Clone, Copy, Debug)]
pub struct MuteChange {
    pub muted: bool,
    pub timer: TimerCommand,
    pub schedule_timer: TimerCommand,
    /// Run the scheduled-reminder check now (on unmuting).
    pub check_due_now: bool,
    pub visuals: MuteVisuals,
}

/// What the settings window hands back on "save and hide".
#[derive(Clone, Debug)]
pub struct SettingsForm {
    pub interval_input: i32,
    pub auto_start: bool,
    pub play_sound: bool,
    pub muted: bool,
    pub reminders: Vec<ReminderRow>,
}

/// What saving the settings window asks of the caller, besides saving the
/// settings and hiding the window.
#[derive(Clone, Copy, Debug)]
pub struct FormApplied {
    pub timer: TimerCommand,
    pub schedule_timer: TimerCommand,
    pub check_due_now: bool,
    /// The auto-start state to write to the Run key.
    pub auto_start: bool,
    pub visuals: MuteVisuals,
}

/// What a tray menu command asks of the caller.
#[derive(Clone, Debug)]
pub enum TrayReaction {
    Mute(MuteChange),
    ShowSettings { interval_minutes: i32 },
    Reminder(ReminderRequest),
    Quit,
}

impl AppState {
    /// The state at start-up: no reminder window, both timers stopped.
    pub fn new(settings: Settings) -> (r: Self)
        ensures
            r.settings == settings,
            !r.reminder_open,
            !r.timer_running,
            !r.schedule_timer_running,
    {
        AppState { settings, reminder_open: false, timer_running: false, schedule_timer_running: false }
    }

    /// Restarts the interval timer: stopped while muted, else a full interval
    /// from now, repeating.
    pub fn restart_timer(&mut self) -> (cmd: TimerCommand)
        ensures
            cmd == interval_timer_command(old(self).settings),
            final(self).timer_running == !old(self).settings.muted,
            final(self).settings == old(self).settings,
            final(self).reminder_open == old(self).reminder_open,
            final(self).schedule_timer_running == old(self).schedule_timer_running,
    {
        if self.settings.muted {
            self.timer_running = false;
            TimerCommand::Stop
        } else {
            self.timer_running = true;
            TimerCommand::Start { period_secs: self.settings.interval_minutes as u64 * 60 }
        }
    }

    /// Restarts the scheduled-reminder timer: stopped while muted, else every 30 seconds.
    pub fn restart_schedule_timer(&mut self) -> (cmd: TimerCommand)
        ensures
            cmd == schedule_timer_command(old(self).settings),
            final(self).schedule_timer_running == !old(self).settings.muted,
            final(self).settings == old(self).settings,
            final(self).reminder_open == old(self).reminder_open,
            final(self).timer_running == old(self).timer_running,
    {
        if self.settings.muted {
            self.schedule_timer_running = false;
            TimerCommand::Stop
        } else {
            self.schedule_timer_running = true;
            TimerCommand::Start { period_secs: 30 }
        }
    }

    /// Stops the interval timer.
    pub fn stop_timer(&mut self) -> (cmd: TimerCommand)
        ensures
            cmd == TimerCommand::Stop,
            !final(self).timer_running,
            final(self).settings == old(self).settings,
            final(self).reminder_open == old(self).reminder_open,
            final(self).schedule_timer_running == old(self).schedule_timer_running,
    {
        self.timer_running = false;
        TimerCommand::Stop
    }

    /// The interval to put in the settings window when it opens.
    pub fn show_settings(&self) -> (interval_minutes: i32)
        ensures
            interval_minutes == self.settings.interval_minutes as i32,
    {
        self.settings.interval_minutes as i32
    }

    /// A reminder is asked for (by the interval timer, a scheduled reminder, or
    /// "Break Now", muted or not). With a reminder window on screen it is shown
    /// again and nothing else changes; otherwise the interval timer stops and a
    /// new window is to be created.
    pub fn show_reminder(&mut self, message: Option<String>) -> (r: ReminderRequest)
        ensures
            old(self).reminder_open ==> r is RaiseExisting && *final(self) == *old(self),
            !old(self).reminder_open ==> {
                &&& r matches ReminderRequest::OpenNew { message: m, timer }
                    && m == message && timer == TimerCommand::Stop
                &&& !final(self).timer_running
                &&& !final(self).reminder_open
                &&& final(self).settings == old(self).settings
                &&& final(self).schedule_timer_running == old(self).schedule_timer_running
            },
    {
        if self.reminder_open {
            return ReminderRequest::RaiseExisting;
        }
        let timer = self.stop_timer();
        ReminderRequest::OpenNew { message, timer }
    }

    /// The new reminder window opened. Tells whether to play the alert sound.
    pub fn reminder_opened(&mut self) -> (play_sound: bool)
        ensures
            play_sound == old(self).settings.play_sound,
            final(self).reminder_open,
            final(self).settings == old(self).settings,
            final(self).timer_running == old(self).timer_running,
            final(self).schedule_timer_running == old(self).schedule_timer_running,
    {
        self.reminder_open = true;
        self.settings.play_sound
    }

    /// The reminder window could not be created: the interval timer restarts.
    pub fn reminder_open_failed(&mut self) -> (cmd: TimerCommand)
        ensures
            cmd == interval_timer_command(old(self).settings),
            final(self).timer_running == !old(self).settings.muted,
            final(self).reminder_open == old(self).reminder_open,
            final(self).settings == old(self).settings,
            final(self).schedule_timer_running == old(self).schedule_timer_running,
    {
        self.restart_timer()
    }

    /// The user dismissed the reminder window: it closes and the interval timer
    /// restarts, so the next automatic break is a full interval away.
    pub fn reminder_dismissed(&mut self) -> (cmd: TimerCommand)
        ensures
            cmd == interval_timer_command(old(self).settings),
            !final(self).reminder_open,
            final(self).timer_running == !old(self).settings.muted,
            final(self).settings == old(self).settings,
            final(self).schedule_timer_running == old(self).schedule_timer_running,
    {
        self.reminder_open = false;
        self.restart_timer()
    }

    /// "Do not disturb" is toggled from the tray: the flag flips, both timers
    /// restart under the new flag, the due check runs when unmuting, and the
    /// tray shows the new state. The caller saves the settings.
    pub fn toggle_mute(&mut self) -> (r: MuteChange)
        ensures
            *final(self) == mute_toggled(*old(self)),
            final(self).settings.muted == !old(self).settings.muted,
            final(self).settings.interval_minutes == old(self).settings.interval_minutes,
            final(self).settings.auto_start == old(self).settings.auto_start,
            final(self).settings.play_sound == old(self).settings.play_sound,
            final(self).settings.scheduled_reminders == old(self).settings.scheduled_reminders,
            final(self).reminder_open == old(self).reminder_open,
            r.muted == final(self).settings.muted,
            r.timer == interval_timer_command(final(self).settings),
            r.schedule_timer == schedule_timer_command(final(self).settings),
            final(self).timer_running == !final(self).settings.muted,
            final(self).schedule_timer_running == !final(self).settings.muted,
            r.check_due_now == !final(self).settings.muted,
            r.visuals.checked == final(self).settings.muted,
            r.visuals.tooltip@ == spec_mute_tooltip(final(self).settings.muted),
    {
        let new_value = !self.settings.muted;
        self.settings.muted = new_value;
        let timer = self.restart_timer();
        let schedule_timer = self.restart_schedule_timer();
        let visuals = refresh_mute_visuals(new_value);
        MuteChange { muted: new_value, timer, schedule_timer, check_due_now: !new_value, visuals }
    }

    /// "Save and hide" in the settings window: the interval (at least one
    /// minute), auto-start, sound and mute settings and the reminder list (none
    /// of them counted as fired yet) are taken, both timers
    /// restart under them, the due check runs unless muted, the Run key is to
    /// follow the auto-start setting, and the tray shows the mute state.
    pub fn apply_settings_form(&mut self, form: SettingsForm) -> (r: FormApplied)
        ensures
            final(self).settings.interval_minutes == (if form.interval_input < 1 {
                1
            } else {
                form.interval_input
            }),
            final(self).settings.auto_start == form.auto_start,
            final(self).settings.play_sound == form.play_sound,
            final(self).settings.muted == form.muted,
            final(self).settings.scheduled_reminders@.len() == form.reminders@.len(),
            forall|j: int| 0 <= j < form.reminders@.len() ==> from_row_result(
                #[trigger] form.reminders@[j],
                final(self).settings.scheduled_reminders@[j],
            ),
            final(self).settings.wf(),
            final(self).reminder_open == old(self).reminder_open,
            r.timer == interval_timer_command(final(self).settings),
            r.schedule_timer == schedule_timer_command(final(self).settings),
            final(self).timer_running == !form.muted,
            final(self).schedule_timer_running == !form.muted,
            r.check_due_now == !form.muted,
            r.auto_start == form.auto_start,
            r.visuals.checked == form.muted,
            r.visuals.tooltip@ == spec_mute_tooltip(form.muted),
    {
        self.settings.interval_minutes = interval_from_input(form.interval_input);
        self.settings.auto_start = form.auto_start;
        self.settings.play_sound = form.play_sound;
        self.settings.muted = form.muted;
        let ghost rows = form.reminders@;
        self.settings.scheduled_reminders = reminders_from_rows(form.reminders);
        proof {
            assert forall|j: int| 0 <= j < self.settings.scheduled_reminders@.len() implies (
            #[trigger] self.settings.scheduled_reminders@[j]).wf() by {
                assert(from_row_result(rows[j], self.settings.scheduled_reminders@[j]));
            }
        }
        let timer = self.restart_timer();
        let schedule_timer = self.restart_schedule_timer();
        let visuals = refresh_mute_visuals(form.muted);
        FormApplied {
            timer,
            schedule_timer,
            check_due_now: !form.muted,
            auto_start: form.auto_start,
            visuals,
        }
    }

    /// A command from the tray menu: toggle "do not disturb", open the settings
    /// window, take a break now (the default message, muted or not), or quit.
    pub fn on_tray_command(&mut self, cmd: TrayCommand) -> (r: TrayReaction)
        ensures
            tray_command_result(*old(self), *final(self), cmd, r),
    {
        match cmd {
            TrayCommand::ToggleMute => TrayReaction::Mute(self.toggle_mute()),
            TrayCommand::OpenSettings => TrayReaction::ShowSettings {
                interval_minutes: self.show_settings(),
            },
            TrayCommand::BreakNow => TrayReaction::Reminder(self.show_reminder(None)),
            TrayCommand::Exit => TrayReaction::Quit,
        }
    }
}

/// The state after "do not disturb" is toggled: only the mute flag flips, and
/// both timers run exactly when not muted.
pub open spec fn mute_toggled(s: AppState) -> AppState {
    AppState {
        settings: Settings { muted: !s.settings.muted, ..s.settings },
        timer_running: s.settings.muted,
        schedule_timer_running: s.settings.muted,
        ..s
    }
}

/// What a tray menu command does to the state and asks of the caller.
pub open spec fn tray_command_result(
    before: AppState,
    after: AppState,
    cmd: TrayCommand,
    r: TrayReaction,
) -> bool {
    match cmd {
        TrayCommand::ToggleMute => match r {
            TrayReaction::Mute(m) => {
                &&& after == mute_toggled(before)
                &&& m.muted == after.settings.muted
                &&& m.check_due_now == !after.settings.muted
                &&& m.timer == interval_timer_command(after.settings)
                &&& m.schedule_timer == schedule_timer_command(after.settings)
                &&& m.visuals.checked == after.settings.muted
                &&& m.visuals.tooltip@ == spec_mute_tooltip(after.settings.muted)
            },
            _ => false,
        },
        TrayCommand::OpenSettings => {
            &&& r == (TrayReaction::ShowSettings {
                interval_minutes: before.settings.interval_minutes as i32,
            })
            &&& after == before
        },
        TrayCommand::BreakNow => match r {
            TrayReaction::Reminder(req) => if before.reminder_open {
                &&& req is RaiseExisting
                &&& after == before
            } else {
                &&& req matches ReminderRequest::OpenNew { message, timer }
                &&& message is None
                &&& timer == TimerCommand::Stop
                &&& !after.timer_running
                &&& after.settings == before.settings
                &&& after.reminder_open == before.reminder_open
                &&& after.schedule_timer_running == before.schedule_timer_running
            },
            _ => false,
        },
        TrayCommand::Exit => {
            &&& r is Quit
            &&& after == before
        },
    }
}

/// "Break now" from the tray follows the one-window rule: with a reminder
/// window on screen it only shows that window again and changes nothing; else
/// it asks for a new window with the default text, the interval timer stopped.
pub proof fn law_break_now_one_window(before: AppState, after: AppState, r: TrayReaction)
    requires
        tray_command_result(before, after, TrayCommand::BreakNow, r),
    ensures
        before.reminder_open ==> r == TrayReaction::Reminder(ReminderRequest::RaiseExisting)
            && after == before,
        !before.reminder_open ==> (r matches TrayReaction::Reminder(
            ReminderRequest::OpenNew { message, timer },
        ) && message is None && timer == TimerCommand::Stop),
        !before.reminder_open ==> !after.timer_running && !after.reminder_open && after.settings
            == before.settings,
{
}

/// The "do not disturb" item of the tray flips the mute flag and nothing else
/// of the settings or the reminder window; both timers run exactly when not
/// muted; the due check runs exactly on unmuting; the checkmark and tooltip
/// show the new state.
pub proof fn law_tray_mute_click(before: AppState, after: AppState, r: TrayReaction)
    requires
        tray_command_result(before, after, TrayCommand::ToggleMute, r),
    ensures
        after.settings.muted == !before.settings.muted,
        after.settings.interval_minutes == before.settings.interval_minutes,
        after.settings.auto_start == before.settings.auto_start,
        after.settings.play_sound == before.settings.play_sound,
        after.settings.scheduled_reminders == before.settings.scheduled_reminders,
        after.reminder_open == before.reminder_open,
        after.timer_running == before.settings.muted,
        after.schedule_timer_running == before.settings.muted,
        r matches TrayReaction::Mute(m) && m.check_due_now == before.settings.muted
            && m.visuals.checked == !before.settings.muted && m.visuals.tooltip@
            == spec_mute_tooltip(!before.settings.muted) && (before.settings.muted ==> m.timer
            == TimerCommand::Start {
            period_secs: (before.settings.interval_minutes * 60) as u64,
        }) && (!before.settings.muted ==> m.timer == TimerCommand::Stop && m.schedule_timer
            == TimerCommand::Stop),
{
}

/// "Break now" resets the interval: after a reminder window opens on a fresh
/// request and is dismissed, the interval timer runs a full interval (unless
/// muted), whatever it was doing before.
pub proof fn law_break_resets_interval(s: Settings)
    ensures
        !s.muted ==> (interval_timer_command(s) matches TimerCommand::Start { period_secs }
            && period_secs == s.interval_minutes as int * 60),
{
}

/// While muted, restarting either timer leaves it stopped.
pub proof fn law_muted_timers_stay_stopped(s: Settings)
    requires
        s.muted,
    ensures
        interval_timer_command(s) == TimerCommand::Stop,
        schedule_timer_command(s) == TimerCommand::Stop,
{
}

} // verus!
