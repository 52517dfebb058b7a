//! The user's settings and what happens to them on load and on save.
use vstd::prelude::*;
use crate::schedule::{
    ReminderFields, ScheduledReminder, from_fields_result, is_seed_list, law_reminder_fields_round_trip,
    seed_defaults, to_fields_result,
};

verus! {

/// The persisted settings. The settings file names the fields `IntervalMinutes`,
/// `AutoStart`, `PlaySound`, `Muted` and `ScheduledReminders`.
#[derive(Clone, Debug)]
pub struct Settings {
    pub interval_minutes: u32,
    pub auto_start: bool,
    pub play_sound: bool,
    pub muted: bool,
    pub scheduled_reminders: Vec<ScheduledReminder>,
}

/// Default value of the auto-start setting when the settings file does not name it.
pub fn default_auto_start() -> (r: bool)
    ensures
        r,
{
    true
}

impl Settings {
    /// Every scheduled reminder holds a time of day and an existing date.
    pub open spec fn wf(&self) -> bool {
        forall|j: int|
            0 <= j < self.scheduled_reminders@.len() ==> (#[trigger] self.scheduled_reminders@[j]).wf()
    }

    /// The settings of a fresh install: a 45-minute interval, auto-start on,
    /// no sound, not muted, no scheduled reminders.
    pub open spec fn is_default(&self) -> bool {
        &&& self.interval_minutes == 45
        &&& self.auto_start
        &&& !self.play_sound
        &&& !self.muted
        &&& self.scheduled_reminders@.len() == 0
    }
}

impl Default for Settings {
    fn default() -> (r: Self)
        ensures
            r.is_default(),
            r.wf(),
    {
        Settings {
            interval_minutes: 45,
            auto_start: default_auto_start(),
            play_sound: false,
            muted: false,
            scheduled_reminders: Vec::new(),
        }
    }
}

/// What `load_from` makes of what reading the settings file gave.
pub open spec fn load_from_result(parsed: Option<Settings>, r: (Settings, bool)) -> bool {
    let base_interval = match parsed {
        Some(s) => s.interval_minutes,
        None => 45,
    };
    let base_auto = match parsed {
        Some(s) => s.auto_start,
        None => true,
    };
    let base_sound = match parsed {
        Some(s) => s.play_sound,
        None => false,
    };
    let base_muted = match parsed {
        Some(s) => s.muted,
        None => false,
    };
    &&& r.0.interval_minutes == base_interval
    &&& r.0.auto_start == base_auto
    &&& r.0.play_sound == base_sound
    &&& r.0.muted == base_muted
    &&& r.1 == match parsed {
        Some(s) => s.scheduled_reminders@.len() == 0,
        None => true,
    }
    &&& r.1 ==> is_seed_list(r.0.scheduled_reminders@)
    &&& !r.1 ==> (parsed matches Some(s) && r.0.scheduled_reminders@ == s.scheduled_reminders@)
    &&& (parsed matches Some(s) ==> s.wf()) ==> r.0.wf()
}

/// Loading keeps the settings file's own fields whenever the file parsed,
/// whether or not reminders were put in; a file that did not parse gives the
/// defaults; a file with reminders keeps them and is not written back.
pub proof fn law_load_keeps_file_fields(parsed: Option<Settings>, r: (Settings, bool))
    requires
        load_from_result(parsed, r),
    ensures
        parsed matches Some(s) ==> {
            &&& r.0.interval_minutes == s.interval_minutes
            &&& r.0.auto_start == s.auto_start
            &&& r.0.play_sound == s.play_sound
            &&& r.0.muted == s.muted
            &&& s.scheduled_reminders@.len() > 0 ==> !r.1 && r.0.scheduled_reminders@
                == s.scheduled_reminders@
            &&& s.scheduled_reminders@.len() == 0 ==> r.1 && r.0.scheduled_reminders@.len() == 3
        },
        parsed is None ==> {
            &&& r.0.interval_minutes == 45
            &&& r.0.auto_start
            &&& !r.0.play_sound
            &&& !r.0.muted
            &&& r.1
            &&& r.0.scheduled_reminders@.len() == 3
        },
{
}

/// The settings to run with, given what reading the settings file gave (none
/// when the file is missing or does not parse): the file's settings, else the
/// defaults; and when they hold no scheduled reminder, the three default
/// reminders are put in. The flag tells whether the reminders were put in, in
/// which case the settings are to be written back.
pub fn load_from(parsed: Option<Settings>) -> (r: (Settings, bool))
    ensures
        load_from_result(parsed, r),
{
    let mut settings = match parsed {
        Some(s) => s,
        None => Settings::default(),
    };
    if settings.scheduled_reminders.len() == 0 {
        settings.scheduled_reminders = seed_defaults();
        (settings, true)
    } else {
        (settings, false)
    }
}

/// The settings that the settings file's fields stand for, each reminder record
/// read as `ScheduledReminder::from_fields` reads it.
pub fn settings_from_records(
    interval_minutes: u32,
    auto_start: bool,
    play_sound: bool,
    muted: bool,
    records: Vec<ReminderFields>,
) -> (r: Settings)
    ensures
        r.interval_minutes == interval_minutes,
        r.auto_start == auto_start,
        r.play_sound == play_sound,
        r.muted == muted,
        r.scheduled_reminders@.len() == records@.len(),
        forall|j: int|
            0 <= j < records@.len() ==> from_fields_result(
                #[trigger] records@[j],
                r.scheduled_reminders@[j],
            ),
        r.wf(),
{
    let ghost orig = records@;
    let mut records = records;
    let mut stack: Vec<ReminderFields> = Vec::new();
    while records.len() > 0
        invariant
            records@.len() + stack@.len() == orig.len(),
            forall|k: int| 0 <= k < records@.len() ==> #[trigger] records@[k] == orig[k],
            forall|k: int|
                0 <= k < stack@.len() ==> #[trigger] stack@[k] == orig[orig.len() - 1 - k],
        decreases records@.len(),
    {
        let f = records.pop().unwrap();
        stack.push(f);
    }
    let n = stack.len();
    let mut out: Vec<ScheduledReminder> = Vec::new();
    while stack.len() > 0
        invariant
            stack@.len() + out@.len() == n,
            n == orig.len(),
            forall|k: int| 0 <= k < stack@.len() ==> #[trigger] stack@[k] == orig[n - 1 - k],
            forall|j: int| 0 <= j < out@.len() ==> from_fields_result(orig[j], #[trigger] out@[j]),
        decreases stack@.len(),
    {
        let f = stack.pop().unwrap();
        proof {
            assert(f == orig[out@.len() as int]);
        }
        out.push(ScheduledReminder::from_fields(f));
    }
    Settings { interval_minutes, auto_start, play_sound, muted, scheduled_reminders: out }
}

/// The settings-file records of the reminders, in order.
pub fn records_of(settings: &Settings) -> (records: Vec<ReminderFields>)
    requires
        settings.wf(),
    ensures
        records@.len() == settings.scheduled_reminders@.len(),
        forall|j: int|
            0 <= j < records@.len() ==> to_fields_result(
                #[trigger] settings.scheduled_reminders@[j],
                records@[j],
            ),
{
    let mut out: Vec<ReminderFields> = Vec::new();
    let n = settings.scheduled_reminders.len();
    let mut i: usize = 0;
    while i < n
        invariant
            n == settings.scheduled_reminders@.len(),
            settings.wf(),
            i <= n,
            out@.len() == i,
            forall|j: int|
                0 <= j < i ==> to_fields_result(
                    #[trigger] settings.scheduled_reminders@[j],
                    out@[j],
                ),
        decreases n - i,
    {
        proof {
            assert(settings.scheduled_reminders@[i as int].wf());
        }
        out.push(settings.scheduled_reminders[i].to_fields());
        i += 1;
    }
    out
}

/// Saving settings and loading them back gives the same settings, for settings
/// with at least one reminder, whose reminders' days are days of the week and
/// whose last firing dates have four-digit years: the records are written by
/// `records_of`, read by `settings_from_records` with the same other fields,
/// and loaded by `load_from`.
pub proof fn law_settings_round_trip(
    s: Settings,
    records: Seq<ReminderFields>,
    read: Settings,
    loaded: (Settings, bool),
)
    requires
        s.wf(),
        s.scheduled_reminders@.len() > 0,
        forall|j: int|
            0 <= j < s.scheduled_reminders@.len() ==> (#[trigger] s.scheduled_reminders@[j]).days.bits
                < 128,
        forall|j: int|
            0 <= j < s.scheduled_reminders@.len() ==> ((#[trigger] s.scheduled_reminders@[j]).last_fired_date
                matches Some(d) ==> 0 <= d.year <= 9999),
        records.len() == s.scheduled_reminders@.len(),
        forall|j: int|
            0 <= j < records.len() ==> to_fields_result(
                #[trigger] s.scheduled_reminders@[j],
                records[j],
            ),
        read.interval_minutes == s.interval_minutes,
        read.auto_start == s.auto_start,
        read.play_sound == s.play_sound,
        read.muted == s.muted,
        read.scheduled_reminders@.len() == records.len(),
        forall|j: int|
            0 <= j < records.len() ==> from_fields_result(
                #[trigger] records[j],
                read.scheduled_reminders@[j],
            ),
        load_from_result(Some(read), loaded),
    ensures
        !loaded.1,
        loaded.0.interval_minutes == s.interval_minutes,
        loaded.0.auto_start == s.auto_start,
        loaded.0.play_sound == s.play_sound,
        loaded.0.muted == s.muted,
        loaded.0.scheduled_reminders@ == s.scheduled_reminders@,
{
    assert forall|j: int| 0 <= j < s.scheduled_reminders@.len() implies read.scheduled_reminders@[j]
        == #[trigger] s.scheduled_reminders@[j] by {
        let r = s.scheduled_reminders@[j];
        assert(r.wf());
        assert(to_fields_result(r, records[j]));
        assert(from_fields_result(records[j], read.scheduled_reminders@[j]));
        law_reminder_fields_round_trip(r, records[j], read.scheduled_reminders@[j]);
    }
    assert(read.scheduled_reminders@ =~= s.scheduled_reminders@);
}

/// The interval the settings window hands back, at least one minute.
pub fn interval_from_input(value: i32) -> (minutes: u32)
    ensures
        minutes >= 1,
        value >= 1 ==> minutes == value,
        value < 1 ==> minutes == 1,
{
    if value < 1 {
        1
    } else {
        value as u32
    }
}

} // verus!
