//! Scheduled reminders: the day-of-week mask, its text form, and the reminder model.
use vstd::prelude::*;
use crate::day_text::{
    all_bits, days_text, has_day, is_separator, joined_names, lemma_split_append_separator,
    lemma_split_prefix, parse_days, pieces_bits, pieces_have_all,
    segment_equals, split_pieces, token_bits, trim, trimmed_bounds, weekday_bits, word_all,
    word_weekdays, is_unknown_token, skipped_tokens, lemma_skipped_after_all, word_none,
};
use crate::weekday::{Weekday, day_bit, day_name, weekday_at, weekday_bit, weekday_name};
use crate::clock::{
    CalendarDate, ClockReading, TimeOfDay, chrono_format_ymd, chrono_parse_hm, chrono_parse_ymd,
    date_text, format_date_ymd, format_time_hm, parse_date_ymd, parse_time_hm, time_or_midnight,
    time_text, valid_date, weekday_of, weekday_of_date,
};
use crate::day_text::lemma_days_text_round_trip;
use crate::settings::Settings;

verus! {

/// A set of days of the week, one bit per day (Sunday is bit 0, Saturday bit 6).
#[derive(Clone, Copy, PartialEq, Eq, Structural, Debug)]
pub struct DayOfWeekMask {
    pub bits: u8,
}

impl DayOfWeekMask {
    /// No day.
    pub fn empty() -> (r: Self)
        ensures
            r.bits == 0,
    {
        DayOfWeekMask { bits: 0 }
    }

    /// Every day of the week.
    pub fn all() -> (r: Self)
        ensures
            r.bits == all_bits(),
    {
        DayOfWeekMask { bits: 127 }
    }

    /// Monday to Friday.
    pub fn weekdays() -> (r: Self)
        ensures
            r.bits == weekday_bits(),
    {
        DayOfWeekMask { bits: 62 }
    }

    /// The mask of one day.
    pub fn day(w: Weekday) -> (r: Self)
        ensures
            r.bits == day_bit(w),
    {
        DayOfWeekMask { bits: weekday_bit(w) }
    }

    /// The mask with the given bits, kept as they are.
    pub fn from_bits_retain(bits: u8) -> (r: Self)
        ensures
            r.bits == bits,
    {
        DayOfWeekMask { bits }
    }

    /// The bits of the mask.
    pub fn bits(&self) -> (r: u8)
        ensures
            r == self.bits,
    {
        self.bits
    }

    /// No day is in the mask.
    pub fn is_empty(&self) -> (r: bool)
        ensures
            r == (self.bits == 0),
    {
        self.bits == 0
    }

    /// Every day of `other` is in the mask.
    pub fn contains(&self, other: Self) -> (r: bool)
        ensures
            r == (self.bits & other.bits == other.bits),
    {
        self.bits & other.bits == other.bits
    }

    /// Adds the days of `other` to the mask (`|=`).
    pub fn insert(&mut self, other: Self)
        ensures
            final(self).bits == old(self).bits | other.bits,
    {
        self.bits = self.bits | other.bits;
    }

    /// The days in either mask.
    pub fn union(self, other: Self) -> (r: Self)
        ensures
            r.bits == self.bits | other.bits,
    {
        DayOfWeekMask { bits: self.bits | other.bits }
    }

    /// True if the mask contains the given calendar weekday.
    pub fn matches(&self, weekday: Weekday) -> (r: bool)
        ensures
            r == has_day(self.bits, weekday),
    {
        self.bits & weekday_bit(weekday) != 0
    }

    /// The text of the mask in the settings file: "None" for no day, "All" for
    /// every day, "Weekdays" for Monday to Friday, otherwise the names of the
    /// days in calendar order (Sunday first) joined by ", ".
    pub fn to_wpf_string(self) -> (r: String)
        ensures
            r@ == days_text(self.bits),
    {
        if self.bits == 0 {
            proof {
                reveal_strlit("None");
            }
            return String::from_str("None");
        }
        if self.bits == 127 {
            proof {
                reveal_strlit("All");
            }
            return String::from_str("All");
        }
        if self.bits == 62 {
            proof {
                reveal_strlit("Weekdays");
            }
            return String::from_str("Weekdays");
        }
        let mut out = String::new();
        let mut first = true;
        let mut k: usize = 0;
        while k < 7
            invariant
                k <= 7,
                out@ == joined_names(self.bits, k as nat),
                first == (out@.len() == 0),
            decreases 7 - k,
        {
            let w = weekday_at(k);
            if self.bits & weekday_bit(w) != 0 {
                if !first {
                    proof {
                        reveal_strlit(", ");
                    }
                    out.append(", ");
                }
                out.append(weekday_name(w));
                proof {
                    assert(day_name(w).len() == 3);
                }
                first = false;
            }
            proof {
                let prev = joined_names(self.bits, k as nat);
                assert(joined_names(self.bits, (k + 1) as nat) == if has_day(self.bits, w) {
                    if prev.len() == 0 {
                        day_name(w)
                    } else {
                        prev + seq![',', ' '] + day_name(w)
                    }
                } else {
                    prev
                });
                if has_day(self.bits, w) && prev.len() == 0 {
                    assert(Seq::<char>::empty() + day_name(w) =~= day_name(w));
                }
            }
            k += 1;
        }
        out
    }

    /// Reads the text of a mask: pieces split at ',' or '|' and trimmed of white
    /// space; "All" anywhere gives every day; "Weekdays" and the day names add
    /// their days; "None", empty pieces and unknown words add nothing.
    pub fn from_wpf_string(s: &str) -> (r: Self)
        ensures
            r.bits == parse_days(s@),
    {
        let n = s.unicode_len();
        let mut mask: u8 = 0;
        let mut start: usize = 0;
        let mut i: usize = 0;
        proof {
            assert(s@.take(0) =~= Seq::<char>::empty());
            assert(split_pieces(Seq::<char>::empty()) == seq![Seq::<char>::empty()]);
            assert(seq![Seq::<char>::empty()].drop_last() =~= Seq::<Seq<char>>::empty());
            assert(s@.subrange(0, 0) =~= Seq::<char>::empty());
        }
        while i < n
            invariant
                n == s@.len(),
                start <= i <= n,
                split_pieces(s@.take(i as int)).len() >= 1,
                split_pieces(s@.take(i as int)).last() == s@.subrange(start as int, i as int),
                mask == pieces_bits(split_pieces(s@.take(i as int)).drop_last()),
                !pieces_have_all(split_pieces(s@.take(i as int)).drop_last()),
            decreases n - i,
        {
            let c = s.get_char(i);
            let ghost ps = split_pieces(s@.take(i as int));
            let ghost ps1 = split_pieces(s@.take(i + 1));
            proof {
                assert(s@.take(i + 1) =~= s@.take(i as int).push(c));
                assert(s@.take(i + 1).drop_last() =~= s@.take(i as int));
            }
            if c == ',' || c == '|' {
                let (is_all, bits) = classify_segment(s, start, i);
                proof {
                    lemma_split_append_separator(s@.take(i as int), c);
                    assert(ps1 == ps.push(Seq::<char>::empty()));
                }
                if is_all {
                    proof {
                        lemma_split_prefix(s@, i + 1, n as int);
                        assert(s@.take(n as int) =~= s@);
                        let k = ps.len() - 1;
                        assert(ps1[k] == ps.last());
                        assert(split_pieces(s@)[k] == ps1[k]);
                        assert(trim(split_pieces(s@)[k]) == word_all());
                        assert(pieces_have_all(split_pieces(s@)));
                    }
                    return Self::all();
                }
                mask = mask | bits;
                proof {
                    assert(ps1.drop_last() =~= ps);
                    assert(pieces_bits(ps) == pieces_bits(ps.drop_last()) | token_bits(
                        trim(ps.last()),
                    ));
                    assert forall|j: int| 0 <= j < ps.len() implies trim(#[trigger] ps[j])
                        != word_all() by {
                        if j < ps.len() - 1 {
                            assert(ps[j] == ps.drop_last()[j]);
                        }
                    }
                    assert(ps1.last() == Seq::<char>::empty());
                    assert(s@.subrange(i + 1, i + 1) =~= Seq::<char>::empty());
                }
                start = i + 1;
            } else {
                proof {
                    assert(!is_separator(c));
                    assert(s@.take(i + 1).last() == c);
                    assert(ps1 == ps.update(ps.len() - 1, ps.last().push(c)));
                    assert(ps1.drop_last() =~= ps.drop_last());
                    assert(ps1.last() == ps.last().push(c));
                    assert(s@.subrange(start as int, i + 1) =~= s@.subrange(
                        start as int,
                        i as int,
                    ).push(c));
                }
            }
            i += 1;
        }
        let (is_all, bits) = classify_segment(s, start, n);
        let ghost ps = split_pieces(s@);
        proof {
            assert(s@.take(n as int) =~= s@);
        }
        if is_all {
            proof {
                assert(trim(ps[ps.len() - 1]) == word_all());
            }
            return Self::all();
        }
        proof {
            assert(pieces_bits(ps) == pieces_bits(ps.drop_last()) | token_bits(trim(ps.last())));
            assert forall|j: int| 0 <= j < ps.len() implies trim(#[trigger] ps[j]) != word_all() by {
                if j < ps.len() - 1 {
                    assert(ps[j] == ps.drop_last()[j]);
                }
            }
        }
        DayOfWeekMask { bits: mask | bits }
    }
}

/// A mask matches a weekday exactly when it contains that day's mask.
pub proof fn law_matches_is_contains_day(m: DayOfWeekMask, w: Weekday)
    ensures
        has_day(m.bits, w) == (m.bits & day_bit(w) == day_bit(w)),
{
    let x = m.bits;
    assert(x & 1 != 0 <==> x & 1 == 1) by (bit_vector);
    assert(x & 2 != 0 <==> x & 2 == 2) by (bit_vector);
    assert(x & 4 != 0 <==> x & 4 == 4) by (bit_vector);
    assert(x & 8 != 0 <==> x & 8 == 8) by (bit_vector);
    assert(x & 16 != 0 <==> x & 16 == 16) by (bit_vector);
    assert(x & 32 != 0 <==> x & 32 == 32) by (bit_vector);
    assert(x & 64 != 0 <==> x & 64 == 64) by (bit_vector);
}

/// Reading back the text of a mask of days gives the same mask: the settings
/// file keeps the days of every reminder.
pub proof fn law_days_text_round_trip(m: DayOfWeekMask)
    requires
        m.bits < 128,
    ensures
        parse_days(days_text(m.bits)) == m.bits,
{
    lemma_days_text_round_trip(m.bits);
}

impl DayOfWeekMask {
    /// The pieces of a day list that `from_wpf_string` skips as unknown, trimmed,
    /// in order, up to the first "All" (where reading stops); for the caller to
    /// report.
    pub fn skipped_day_tokens(s: &str) -> (r: Vec<String>)
        ensures
            r@.map_values(|t: String| t@) == skipped_tokens(split_pieces(s@)),
    {
        let n = s.unicode_len();
        let mut out: Vec<String> = Vec::new();
        let mut start: usize = 0;
        let mut i: usize = 0;
        proof {
            assert(s@.take(0) =~= Seq::<char>::empty());
            assert(split_pieces(Seq::<char>::empty()) == seq![Seq::<char>::empty()]);
            assert(seq![Seq::<char>::empty()].drop_last() =~= Seq::<Seq<char>>::empty());
            assert(s@.subrange(0, 0) =~= Seq::<char>::empty());
            assert(out@.map_values(|t: String| t@) =~= Seq::<Seq<char>>::empty());
        }
        while i < n
            invariant
                n == s@.len(),
                start <= i <= n,
                split_pieces(s@.take(i as int)).len() >= 1,
                split_pieces(s@.take(i as int)).last() == s@.subrange(start as int, i as int),
                out@.map_values(|t: String| t@) == skipped_tokens(
                    split_pieces(s@.take(i as int)).drop_last(),
                ),
                !pieces_have_all(split_pieces(s@.take(i as int)).drop_last()),
            decreases n - i,
        {
            let c = s.get_char(i);
            let ghost ps = split_pieces(s@.take(i as int));
            let ghost ps1 = split_pieces(s@.take(i + 1));
            proof {
                assert(s@.take(i + 1) =~= s@.take(i as int).push(c));
                assert(s@.take(i + 1).drop_last() =~= s@.take(i as int));
            }
            if c == ',' || c == '|' {
                proof {
                    lemma_split_append_separator(s@.take(i as int), c);
                    assert(ps1 == ps.push(Seq::<char>::empty()));
                    assert(ps1.drop_last() =~= ps);
                }
                let (is_all, unknown, a, b) = examine_segment(s, start, i);
                if is_all {
                    proof {
                        lemma_split_prefix(s@, i + 1, n as int);
                        assert(s@.take(n as int) =~= s@);
                        let full = split_pieces(s@);
                        assert forall|k: int| 0 <= k < ps.len() implies #[trigger] full.take(
                            ps.len() as int,
                        )[k] == ps[k] by {
                            assert(ps1[k] == ps[k]);
                        }
                        assert(full.take(ps.len() as int) =~= ps);
                        assert(trim(ps[ps.len() - 1]) == word_all());
                        assert(pieces_have_all(ps));
                        lemma_skipped_after_all(full, ps.len() as int);
                        assert(skipped_tokens(ps) == skipped_tokens(ps.drop_last()));
                    }
                    return out;
                }
                if unknown {
                    let t = String::from_str(s.substring_char(a, b));
                    out.push(t);
                    proof {
                        assert(out@.map_values(|t: String| t@) =~= skipped_tokens(
                            ps.drop_last(),
                        ).push(trim(ps.last())));
                    }
                }
                proof {
                    assert forall|j: int| 0 <= j < ps.len() implies trim(#[trigger] ps[j])
                        != word_all() by {
                        if j < ps.len() - 1 {
                            assert(ps[j] == ps.drop_last()[j]);
                        }
                    }
                    assert(ps1.last() == Seq::<char>::empty());
                    assert(s@.subrange(i + 1, i + 1) =~= Seq::<char>::empty());
                }
                start = i + 1;
            } else {
                proof {
                    assert(!is_separator(c));
                    assert(s@.take(i + 1).last() == c);
                    assert(ps1 == ps.update(ps.len() - 1, ps.last().push(c)));
                    assert(ps1.drop_last() =~= ps.drop_last());
                    assert(ps1.last() == ps.last().push(c));
                    assert(s@.subrange(start as int, i + 1) =~= s@.subrange(
                        start as int,
                        i as int,
                    ).push(c));
                }
            }
            i += 1;
        }
        let ghost ps = split_pieces(s@);
        proof {
            assert(s@.take(n as int) =~= s@);
        }
        let (is_all, unknown, a, b) = examine_segment(s, start, n);
        if unknown && !is_all {
            let t = String::from_str(s.substring_char(a, b));
            out.push(t);
            proof {
                assert(out@.map_values(|t: String| t@) =~= skipped_tokens(ps.drop_last()).push(
                    trim(ps.last()),
                ));
            }
        }
        out
    }
}

/// The trimmed piece `lo..hi` of `s`: whether it is "All", whether it is
/// unknown, and its bounds.
fn examine_segment(s: &str, lo: usize, hi: usize) -> (r: (bool, bool, usize, usize))
    requires
        lo <= hi <= s@.len(),
    ensures
        lo <= r.2 <= r.3 <= hi,
        s@.subrange(r.2 as int, r.3 as int) == trim(s@.subrange(lo as int, hi as int)),
        r.0 == (trim(s@.subrange(lo as int, hi as int)) == word_all()),
        r.1 == is_unknown_token(trim(s@.subrange(lo as int, hi as int))),
{
    let (a, b) = trimmed_bounds(s, lo, hi);
    let (is_all, bits) = classify_segment(s, lo, hi);
    proof {
        reveal_strlit("None");
        assert("None"@ =~= word_none());
    }
    let unknown = b > a && !is_all && bits == 0 && !segment_equals(s, a, b, "None");
    (is_all, unknown, a, b)
}

/// Classifies the piece `lo..hi` of `s` once trimmed: whether it is "All", and
/// the days it names.
fn classify_segment(s: &str, lo: usize, hi: usize) -> (r: (bool, u8))
    requires
        lo <= hi <= s@.len(),
    ensures
        r.0 == (trim(s@.subrange(lo as int, hi as int)) == word_all()),
        r.1 == token_bits(trim(s@.subrange(lo as int, hi as int))),
{
    let (a, b) = trimmed_bounds(s, lo, hi);
    let ghost t = s@.subrange(a as int, b as int);
    proof {
        reveal_strlit("All");
        reveal_strlit("Weekdays");
        reveal_strlit("Sun");
        reveal_strlit("Mon");
        reveal_strlit("Tue");
        reveal_strlit("Wed");
        reveal_strlit("Thu");
        reveal_strlit("Fri");
        reveal_strlit("Sat");
        assert("All"@ =~= word_all());
        assert("Weekdays"@ =~= word_weekdays());
        assert("Sun"@ =~= day_name(Weekday::Sun));
        assert("Mon"@ =~= day_name(Weekday::Mon));
        assert("Tue"@ =~= day_name(Weekday::Tue));
        assert("Wed"@ =~= day_name(Weekday::Wed));
        assert("Thu"@ =~= day_name(Weekday::Thu));
        assert("Fri"@ =~= day_name(Weekday::Fri));
        assert("Sat"@ =~= day_name(Weekday::Sat));
        assert(word_all() != word_weekdays()) by {
            assert(word_all().len() != word_weekdays().len());
        }
        assert(word_all() != day_name(Weekday::Sun)) by {
            assert(word_all()[0] != day_name(Weekday::Sun)[0]);
        }
        assert(word_all() != day_name(Weekday::Mon)) by {
            assert(word_all()[0] != day_name(Weekday::Mon)[0]);
        }
        assert(word_all() != day_name(Weekday::Tue)) by {
            assert(word_all()[0] != day_name(Weekday::Tue)[0]);
        }
        assert(word_all() != day_name(Weekday::Wed)) by {
            assert(word_all()[0] != day_name(Weekday::Wed)[0]);
        }
        assert(word_all() != day_name(Weekday::Thu)) by {
            assert(word_all()[0] != day_name(Weekday::Thu)[0]);
        }
        assert(word_all() != day_name(Weekday::Fri)) by {
            assert(word_all()[0] != day_name(Weekday::Fri)[0]);
        }
        assert(word_all() != day_name(Weekday::Sat)) by {
            assert(word_all()[0] != day_name(Weekday::Sat)[0]);
        }
    }
    if segment_equals(s, a, b, "All") {
        return (true, 0);
    }
    if segment_equals(s, a, b, "Weekdays") {
        return (false, 62);
    }
    if segment_equals(s, a, b, "Sun") {
        return (false, 1);
    }
    if segment_equals(s, a, b, "Mon") {
        return (false, 2);
    }
    if segment_equals(s, a, b, "Tue") {
        return (false, 4);
    }
    if segment_equals(s, a, b, "Wed") {
        return (false, 8);
    }
    if segment_equals(s, a, b, "Thu") {
        return (false, 16);
    }
    if segment_equals(s, a, b, "Fri") {
        return (false, 32);
    }
    if segment_equals(s, a, b, "Sat") {
        return (false, 64);
    }
    (false, 0)
}


/// A reminder that fires at a time of day on the days of its mask, once per day.
#[derive(Clone, Debug)]
pub struct ScheduledReminder {
    pub enabled: bool,
    pub time: TimeOfDay,
    pub days: DayOfWeekMask,
    pub message: String,
    pub last_fired_date: Option<CalendarDate>,
}

/// The fields of a reminder as the settings file holds them: the time as
/// "HH:MM", the days as text, the last firing date as "YYYY-MM-DD".
#[derive(Clone, Debug)]
pub struct ReminderFields {
    pub enabled: bool,
    pub time: String,
    pub days: String,
    pub message: String,
    pub last_fired_date: Option<String>,
}

impl ScheduledReminder {
    /// The time is a time of day and the last firing date, if any, exists.
    pub open spec fn wf(&self) -> bool {
        &&& self.time.valid()
        &&& self.last_fired_date matches Some(d) ==> valid_date(d)
    }

    /// The reminder fires at this reading of the clock: it is enabled, has not
    /// fired today, today is one of its days, and the clock is at its time or at
    /// most two minutes past it.
    pub open spec fn is_due(&self, now: ClockReading, weekday: Weekday) -> bool {
        &&& self.enabled
        &&& self.last_fired_date != Some(now.date)
        &&& has_day(self.days.bits, weekday)
        &&& now.secs_from_midnight >= self.time.seconds()
        &&& (now.secs_from_midnight - self.time.seconds()) * 1_000_000_000 + now.nanos
            <= 120_000_000_000
    }

    /// Whether the reminder fires at this reading of the clock.
    pub fn is_due_at(&self, now: ClockReading, weekday: Weekday) -> (r: bool)
        ensures
            r == self.is_due(now, weekday),
    {
        if !self.enabled {
            return false;
        }
        match self.last_fired_date {
            Some(d) => {
                if d == now.date {
                    return false;
                }
            },
            None => {},
        }
        if !self.days.matches(weekday) {
            return false;
        }
        let at: u64 = self.time.hour as u64 * 3600 + self.time.minute as u64 * 60;
        let secs = now.secs_from_midnight as u64;
        if secs < at {
            return false;
        }
        (secs - at) * 1_000_000_000 + now.nanos as u64 <= 120_000_000_000
    }

    /// The reminder a settings-file record stands for: an unreadable time falls
    /// back to midnight, an unreadable last firing date to none.
    pub fn from_fields(fields: ReminderFields) -> (r: Self)
        ensures
            from_fields_result(fields, r),
    {
        let parsed = parse_time_hm(fields.time.as_str());
        let time = time_or_midnight(parsed);
        let days = DayOfWeekMask::from_wpf_string(fields.days.as_str());
        let last_fired_date = match &fields.last_fired_date {
            Some(text) => parse_date_ymd(text.as_str()),
            None => None,
        };
        ScheduledReminder {
            enabled: fields.enabled,
            time,
            days,
            message: fields.message,
            last_fired_date,
        }
    }

    /// The settings-file record of the reminder.
    pub fn to_fields(&self) -> (f: ReminderFields)
        requires
            self.wf(),
        ensures
            to_fields_result(*self, f),
    {
        let last_fired_date = match self.last_fired_date {
            Some(d) => Some(format_date_ymd(d)),
            None => None,
        };
        ReminderFields {
            enabled: self.enabled,
            time: format_time_hm(self.time),
            days: self.days.to_wpf_string(),
            message: self.message.clone(),
            last_fired_date,
        }
    }
}

/// What `ScheduledReminder::from_fields` makes of a record.
pub open spec fn from_fields_result(f: ReminderFields, r: ScheduledReminder) -> bool {
    &&& r.enabled == f.enabled
    &&& r.time == match chrono_parse_hm(f.time@) {
        Some((h, m)) => TimeOfDay { hour: h, minute: m },
        None => TimeOfDay { hour: 0, minute: 0 },
    }
    &&& forall|t: TimeOfDay| #![trigger time_text(t)]
        t.valid() && f.time@ == time_text(t) ==> r.time == t
    &&& r.days.bits == parse_days(f.days@)
    &&& r.message == f.message
    &&& r.last_fired_date == match f.last_fired_date {
        Some(text) => match chrono_parse_ymd(text@) {
            Some((y, m, d)) => Some(CalendarDate { year: y, month: m, day: d }),
            None => None,
        },
        None => None,
    }
    &&& forall|d: CalendarDate| #![trigger date_text(d)]
        f.last_fired_date matches Some(text) && valid_date(d) && 0 <= d.year <= 9999 && text@
            == date_text(d) ==> r.last_fired_date == Some(d)
    &&& r.wf()
}

/// What `ScheduledReminder::to_fields` writes for a reminder.
pub open spec fn to_fields_result(r: ScheduledReminder, f: ReminderFields) -> bool {
    &&& f.enabled == r.enabled
    &&& f.time@ == time_text(r.time)
    &&& f.days@ == days_text(r.days.bits)
    &&& f.message == r.message
    &&& match r.last_fired_date {
        Some(d) => f.last_fired_date matches Some(text) && text@ == chrono_format_ymd(
            d.year,
            d.month,
            d.day,
        ) && (0 <= d.year <= 9999 ==> text@ == date_text(d)),
        None => f.last_fired_date is None,
    }
}

/// Writing a reminder to its record and reading the record back gives the same
/// reminder, for a reminder whose days are days of the week and whose last
/// firing date, if any, has a four-digit year.
pub proof fn law_reminder_fields_round_trip(
    r: ScheduledReminder,
    f: ReminderFields,
    g: ScheduledReminder,
)
    requires
        r.wf(),
        r.days.bits < 128,
        r.last_fired_date matches Some(d) ==> 0 <= d.year <= 9999,
        to_fields_result(r, f),
        from_fields_result(f, g),
    ensures
        g == r,
{
    lemma_days_text_round_trip(r.days.bits);
    assert(f.time@ == time_text(r.time));
    assert(g.time == r.time);
    assert(g.days == r.days);
    match r.last_fired_date {
        Some(d) => {
            assert(f.last_fired_date is Some);
            let text = f.last_fired_date.unwrap();
            assert(text@ == date_text(d));
            assert(g.last_fired_date == Some(d));
        },
        None => {},
    }
}

/// The reminder after a check at `now`: marked as fired today if it was due.
pub open spec fn after_check(r: ScheduledReminder, now: ClockReading, weekday: Weekday) -> ScheduledReminder {
    if r.is_due(now, weekday) {
        ScheduledReminder { last_fired_date: Some(now.date), ..r }
    } else {
        r
    }
}

/// The messages of the due reminders, in list order.
pub open spec fn due_messages(rs: Seq<ScheduledReminder>, now: ClockReading, weekday: Weekday) -> Seq<
    Seq<char>,
>
    decreases rs.len(),
{
    if rs.len() == 0 {
        Seq::<Seq<char>>::empty()
    } else {
        let prev = due_messages(rs.drop_last(), now, weekday);
        if rs.last().is_due(now, weekday) {
            prev.push(rs.last().message@)
        } else {
            prev
        }
    }
}

/// Marks every reminder that is due at `now` (on the given weekday) as fired
/// today and gives back their messages in list order.
pub fn fire_due_reminders(
    reminders: &mut Vec<ScheduledReminder>,
    now: ClockReading,
    weekday: Weekday,
) -> (messages: Vec<String>)
    ensures
        final(reminders)@.len() == old(reminders)@.len(),
        forall|j: int|
            0 <= j < old(reminders)@.len() ==> #[trigger] final(reminders)@[j] == after_check(
                old(reminders)@[j],
                now,
                weekday,
            ),
        messages@.map_values(|m: String| m@) == due_messages(old(reminders)@, now, weekday),
{
    let ghost orig = reminders@;
    let mut messages: Vec<String> = Vec::new();
    let n = reminders.len();
    let mut i: usize = 0;
    while i < n
        invariant
            reminders@.len() == n,
            orig.len() == n,
            i <= n,
            forall|j: int| 0 <= j < i ==> #[trigger] reminders@[j] == after_check(orig[j], now, weekday),
            forall|j: int| i <= j < n ==> #[trigger] reminders@[j] == orig[j],
            messages@.map_values(|m: String| m@) == due_messages(orig.take(i as int), now, weekday),
        decreases n - i,
    {
        let due = reminders[i].is_due_at(now, weekday);
        proof {
            assert(orig.take(i + 1).drop_last() =~= orig.take(i as int));
            assert(orig.take(i + 1).last() == orig[i as int]);
        }
        if due {
            let msg = reminders[i].message.clone();
            messages.push(msg);
            reminders[i].last_fired_date = Some(now.date);
            proof {
                assert(messages@.map_values(|m: String| m@) =~= due_messages(
                    orig.take(i as int),
                    now,
                    weekday,
                ).push(orig[i as int].message@));
            }
        }
        proof {
            assert(reminders@[i as int] == after_check(orig[i as int], now, weekday));
        }
        i += 1;
    }
    proof {
        assert(orig.take(n as int) =~= orig);
    }
    messages
}

/// The scheduled-reminder check: unless reminders are muted, marks each reminder
/// that is due now as fired today and gives back their messages, to be shown;
/// the caller saves the settings when a message comes back.
pub fn check_due_reminders(settings: &mut Settings, now: ClockReading) -> (messages: Vec<String>)
    ensures
        final(settings).interval_minutes == old(settings).interval_minutes,
        final(settings).auto_start == old(settings).auto_start,
        final(settings).play_sound == old(settings).play_sound,
        final(settings).muted == old(settings).muted,
        final(settings).scheduled_reminders@.len() == old(settings).scheduled_reminders@.len(),
        old(settings).wf() ==> final(settings).wf(),
        match (old(settings).muted, weekday_of_date(now.date)) {
            (false, Some(w)) => {
                &&& forall|j: int| 0 <= j < old(settings).scheduled_reminders@.len()
                    ==> #[trigger] final(settings).scheduled_reminders@[j] == after_check(
                    old(settings).scheduled_reminders@[j],
                    now,
                    w,
                )
                &&& messages@.map_values(|m: String| m@) == due_messages(
                    old(settings).scheduled_reminders@,
                    now,
                    w,
                )
            },
            _ => {
                &&& final(settings).scheduled_reminders@ == old(settings).scheduled_reminders@
                &&& messages@.len() == 0
            },
        },
{
    if settings.muted {
        return Vec::new();
    }
    match weekday_of(now.date) {
        Some(w) => {
            let ghost before = settings.scheduled_reminders@;
            let messages = fire_due_reminders(&mut settings.scheduled_reminders, now, w);
            proof {
                assert(valid_date(now.date));
                assert forall|j: int| 0 <= j < before.len() && (#[trigger] before[j]).wf() implies (
                settings.scheduled_reminders@[j]).wf() by {
                    assert(settings.scheduled_reminders@[j] == after_check(before[j], now, w));
                }
            }
            messages
        },
        None => Vec::new(),
    }
}

/// A second check on the same day fires none of the reminders that the first
/// check fired: the check is idempotent within a calendar day.
pub proof fn law_fired_reminder_not_due_again_same_day(
    r: ScheduledReminder,
    first: ClockReading,
    later: ClockReading,
    weekday: Weekday,
)
    requires
        r.is_due(first, weekday),
        later.date == first.date,
    ensures
        !after_check(r, first, weekday).is_due(later, weekday),
{
}

/// After a check, no reminder is due at the same reading of the clock: running
/// the check twice in a row fires nothing the second time.
pub proof fn law_check_twice_fires_nothing(r: ScheduledReminder, now: ClockReading, weekday: Weekday)
    ensures
        !after_check(r, now, weekday).is_due(now, weekday),
{
}

/// A reminder is due only from its own time of day (hour and minute, on the
/// 24-hour clock) to two minutes after it; at its time, on one of its days,
/// enabled and not yet fired that day, it is due.
pub proof fn law_due_window(r: ScheduledReminder, now: ClockReading, w: Weekday)
    ensures
        r.is_due(now, w) ==> r.time.hour * 3600 + r.time.minute * 60 <= now.secs_from_midnight
            <= r.time.hour * 3600 + r.time.minute * 60 + 120,
        now.secs_from_midnight < r.time.hour * 3600 + r.time.minute * 60 ==> !r.is_due(now, w),
        now.secs_from_midnight > r.time.hour * 3600 + r.time.minute * 60 + 120 ==> !r.is_due(
            now,
            w,
        ),
        r.is_due(now, w) ==> r.enabled && r.last_fired_date != Some(now.date) && has_day(
            r.days.bits,
            w,
        ),
        r.enabled && r.last_fired_date != Some(now.date) && has_day(r.days.bits, w)
            && now.secs_from_midnight == r.time.hour * 3600 + r.time.minute * 60 && now.nanos
            < 1_000_000_000 ==> r.is_due(now, w),
{
}

/// The messages of a list of reminders are those of its first part followed by
/// those of its second part: messages come in list order.
pub proof fn law_due_messages_in_list_order(
    a: Seq<ScheduledReminder>,
    b: Seq<ScheduledReminder>,
    now: ClockReading,
    w: Weekday,
)
    ensures
        due_messages(a + b, now, w) == due_messages(a, now, w) + due_messages(b, now, w),
    decreases b.len(),
{
    if b.len() == 0 {
        assert(a + b =~= a);
        assert(due_messages(a, now, w) + due_messages(b, now, w) =~= due_messages(a, now, w));
    } else {
        law_due_messages_in_list_order(a, b.drop_last(), now, w);
        assert((a + b).drop_last() =~= a + b.drop_last());
        assert((a + b).last() == b.last());
        let ma = due_messages(a, now, w);
        let mb = due_messages(b.drop_last(), now, w);
        if b.last().is_due(now, w) {
            assert((ma + mb).push(b.last().message@) =~= ma + mb.push(b.last().message@));
        }
    }
}

/// One reminder gives its message exactly when it is due.
pub proof fn law_due_message_of_one(r: ScheduledReminder, now: ClockReading, w: Weekday)
    ensures
        due_messages(seq![r], now, w) == if r.is_due(now, w) {
            seq![r.message@]
        } else {
            Seq::<Seq<char>>::empty()
        },
{
    assert(seq![r].drop_last() =~= Seq::<ScheduledReminder>::empty());
    assert(seq![r].last() == r);
    assert(due_messages(Seq::<ScheduledReminder>::empty(), now, w) == Seq::<Seq<char>>::empty());
    assert(due_messages(seq![r], now, w) == if r.is_due(now, w) {
        due_messages(Seq::<ScheduledReminder>::empty(), now, w).push(r.message@)
    } else {
        due_messages(Seq::<ScheduledReminder>::empty(), now, w)
    });
    assert(Seq::<Seq<char>>::empty().push(r.message@) =~= seq![r.message@]);
}

/// A check changes nothing of a reminder but its last firing date, which
/// becomes today when it was due and stays otherwise.
pub proof fn law_check_only_marks_fired(r: ScheduledReminder, now: ClockReading, w: Weekday)
    ensures
        after_check(r, now, w).enabled == r.enabled,
        after_check(r, now, w).time == r.time,
        after_check(r, now, w).days == r.days,
        after_check(r, now, w).message == r.message,
        r.is_due(now, w) ==> after_check(r, now, w).last_fired_date == Some(now.date),
        !r.is_due(now, w) ==> after_check(r, now, w).last_fired_date == r.last_fired_date,
{
}

/// The three reminders of a fresh install: 11:55 on weekdays "吃飯囉！", 19:00 on
/// weekdays "下班時間到！", and 00:00 every day "該睡覺了！", none fired yet.
pub open spec fn is_seed_list(r: Seq<ScheduledReminder>) -> bool {
    &&& r.len() == 3
    &&& r[0].enabled && r[0].time == (TimeOfDay { hour: 11, minute: 55 }) && r[0].days.bits
        == weekday_bits() && r[0].message@ == "\u{5403}\u{98ef}\u{56c9}\u{ff01}"@
        && r[0].last_fired_date is None
    &&& r[1].enabled && r[1].time == (TimeOfDay { hour: 19, minute: 0 }) && r[1].days.bits
        == weekday_bits() && r[1].message@
        == "\u{4e0b}\u{73ed}\u{6642}\u{9593}\u{5230}\u{ff01}"@ && r[1].last_fired_date is None
    &&& r[2].enabled && r[2].time == (TimeOfDay { hour: 0, minute: 0 }) && r[2].days.bits
        == all_bits() && r[2].message@ == "\u{8a72}\u{7761}\u{89ba}\u{4e86}\u{ff01}"@
        && r[2].last_fired_date is None
    &&& forall|j: int| 0 <= j < 3 ==> (#[trigger] r[j]).wf()
}

/// The reminders of a fresh install.
pub fn seed_defaults() -> (r: Vec<ScheduledReminder>)
    ensures
        is_seed_list(r@),
{
    let mut r: Vec<ScheduledReminder> = Vec::new();
    r.push(
        ScheduledReminder {
            enabled: true,
            time: TimeOfDay { hour: 11, minute: 55 },
            days: DayOfWeekMask::weekdays(),
            message: String::from_str("\u{5403}\u{98ef}\u{56c9}\u{ff01}"),
            last_fired_date: None,
        },
    );
    r.push(
        ScheduledReminder {
            enabled: true,
            time: TimeOfDay { hour: 19, minute: 0 },
            days: DayOfWeekMask::weekdays(),
            message: String::from_str("\u{4e0b}\u{73ed}\u{6642}\u{9593}\u{5230}\u{ff01}"),
            last_fired_date: None,
        },
    );
    r.push(
        ScheduledReminder {
            enabled: true,
            time: TimeOfDay { hour: 0, minute: 0 },
            days: DayOfWeekMask::all(),
            message: String::from_str("\u{8a72}\u{7761}\u{89ba}\u{4e86}\u{ff01}"),
            last_fired_date: None,
        },
    );
    r
}


/// One row of the reminder list in the settings window: a check box, the time as
/// typed, a check box per day, the message.
#[derive(Clone, Debug)]
pub struct ReminderRow {
    pub enabled: bool,
    pub time_text: String,
    pub mon: bool,
    pub tue: bool,
    pub wed: bool,
    pub thu: bool,
    pub fri: bool,
    pub sat: bool,
    pub sun: bool,
    pub message: String,
}

/// The mask of the days whose flag is set.
pub open spec fn flags_bits(sun: bool, mon: bool, tue: bool, wed: bool, thu: bool, fri: bool, sat: bool) -> u8 {
    (if sun { 1u8 } else { 0u8 }) | (if mon { 2u8 } else { 0u8 }) | (if tue { 4u8 } else { 0u8 })
        | (if wed { 8u8 } else { 0u8 }) | (if thu { 16u8 } else { 0u8 }) | (if fri { 32u8 } else {
        0u8
    }) | (if sat { 64u8 } else { 0u8 })
}

/// The mask of the ticked days of a row.
pub open spec fn row_bits(row: ReminderRow) -> u8 {
    flags_bits(row.sun, row.mon, row.tue, row.wed, row.thu, row.fri, row.sat)
}

/// The row of a reminder in the settings window.
pub open spec fn to_row_result(r: ScheduledReminder, row: ReminderRow) -> bool {
    &&& row.enabled == r.enabled
    &&& row.time_text@ == time_text(r.time)
    &&& row.sun == has_day(r.days.bits, Weekday::Sun)
    &&& row.mon == has_day(r.days.bits, Weekday::Mon)
    &&& row.tue == has_day(r.days.bits, Weekday::Tue)
    &&& row.wed == has_day(r.days.bits, Weekday::Wed)
    &&& row.thu == has_day(r.days.bits, Weekday::Thu)
    &&& row.fri == has_day(r.days.bits, Weekday::Fri)
    &&& row.sat == has_day(r.days.bits, Weekday::Sat)
    &&& row.message == r.message
}

/// The reminder a row of the settings window stands for: an unreadable time
/// falls back to midnight, and the reminder counts as not fired yet.
pub open spec fn from_row_result(row: ReminderRow, r: ScheduledReminder) -> bool {
    &&& r.enabled == row.enabled
    &&& r.time == match chrono_parse_hm(row.time_text@) {
        Some((h, m)) => TimeOfDay { hour: h, minute: m },
        None => TimeOfDay { hour: 0, minute: 0 },
    }
    &&& forall|t: TimeOfDay| #![trigger time_text(t)]
        t.valid() && row.time_text@ == time_text(t) ==> r.time == t
    &&& r.days.bits == row_bits(row)
    &&& r.message == row.message
    &&& r.last_fired_date is None
    &&& r.wf()
}

impl DayOfWeekMask {
    /// The mask of the days whose flag is set.
    pub fn from_flags(
        sun: bool,
        mon: bool,
        tue: bool,
        wed: bool,
        thu: bool,
        fri: bool,
        sat: bool,
    ) -> (r: Self)
        ensures
            r.bits == flags_bits(sun, mon, tue, wed, thu, fri, sat),
    {
        let bits: u8 = (if sun { 1u8 } else { 0u8 }) | (if mon { 2u8 } else { 0u8 }) | (if tue {
            4u8
        } else {
            0u8
        }) | (if wed { 8u8 } else { 0u8 }) | (if thu { 16u8 } else { 0u8 }) | (if fri {
            32u8
        } else {
            0u8
        }) | (if sat { 64u8 } else { 0u8 });
        DayOfWeekMask { bits }
    }
}

impl ScheduledReminder {
    /// The reminder's row in the settings window.
    pub fn to_row(&self) -> (row: ReminderRow)
        requires
            self.wf(),
        ensures
            to_row_result(*self, row),
    {
        ReminderRow {
            enabled: self.enabled,
            time_text: format_time_hm(self.time),
            mon: self.days.matches(Weekday::Mon),
            tue: self.days.matches(Weekday::Tue),
            wed: self.days.matches(Weekday::Wed),
            thu: self.days.matches(Weekday::Thu),
            fri: self.days.matches(Weekday::Fri),
            sat: self.days.matches(Weekday::Sat),
            sun: self.days.matches(Weekday::Sun),
            message: self.message.clone(),
        }
    }

    /// The reminder a row of the settings window stands for, as saved: an
    /// unreadable time is midnight, and it has not fired yet.
    pub fn from_row(row: ReminderRow) -> (r: Self)
        ensures
            from_row_result(row, r),
    {
        let time = time_or_midnight(parse_time_hm(row.time_text.as_str()));
        let days = DayOfWeekMask::from_flags(
            row.sun,
            row.mon,
            row.tue,
            row.wed,
            row.thu,
            row.fri,
            row.sat,
        );
        ScheduledReminder { enabled: row.enabled, time, days, message: row.message, last_fired_date: None }
    }
}

impl ReminderRow {
    /// The row that "add reminder" puts in the list: enabled, 12:00, Monday to
    /// Friday, "提醒訊息".
    pub fn new_default() -> (row: Self)
        ensures
            row.enabled,
            row.time_text@ == "12:00"@,
            row.mon && row.tue && row.wed && row.thu && row.fri && !row.sat && !row.sun,
            row.message@ == "\u{63d0}\u{9192}\u{8a0a}\u{606f}"@,
    {
        ReminderRow {
            enabled: true,
            time_text: String::from_str("12:00"),
            mon: true,
            tue: true,
            wed: true,
            thu: true,
            fri: true,
            sat: false,
            sun: false,
            message: String::from_str("\u{63d0}\u{9192}\u{8a0a}\u{606f}"),
        }
    }
}

/// The rows of the reminder list in the settings window, in order.
pub fn rows_from_reminders(reminders: &Vec<ScheduledReminder>) -> (rows: Vec<ReminderRow>)
    requires
        forall|j: int| 0 <= j < reminders@.len() ==> (#[trigger] reminders@[j]).wf(),
    ensures
        rows@.len() == reminders@.len(),
        forall|j: int| 0 <= j < reminders@.len() ==> to_row_result(#[trigger] reminders@[j], rows@[j]),
{
    let mut rows: Vec<ReminderRow> = Vec::new();
    let n = reminders.len();
    let mut i: usize = 0;
    while i < n
        invariant
            n == reminders@.len(),
            i <= n,
            rows@.len() == i,
            forall|j: int| 0 <= j < reminders@.len() ==> (#[trigger] reminders@[j]).wf(),
            forall|j: int| 0 <= j < i ==> to_row_result(#[trigger] reminders@[j], rows@[j]),
        decreases n - i,
    {
        rows.push(reminders[i].to_row());
        i += 1;
    }
    rows
}

/// The reminders that the rows of the settings window stand for, in order.
pub fn reminders_from_rows(rows: Vec<ReminderRow>) -> (r: Vec<ScheduledReminder>)
    ensures
        r@.len() == rows@.len(),
        forall|j: int| 0 <= j < rows@.len() ==> from_row_result(#[trigger] rows@[j], r@[j]),
{
    let mut out: Vec<ScheduledReminder> = Vec::new();
    let mut rows = rows;
    let ghost orig = rows@;
    let mut stack: Vec<ReminderRow> = Vec::new();
    while rows.len() > 0
        invariant
            rows@.len() + stack@.len() == orig.len(),
            forall|k: int| 0 <= k < rows@.len() ==> #[trigger] rows@[k] == orig[k],
            forall|k: int| 0 <= k < stack@.len() ==> #[trigger] stack@[k] == orig[orig.len() - 1 - k],
        decreases rows@.len(),
    {
        let row = rows.pop().unwrap();
        stack.push(row);
    }
    let n = stack.len();
    while stack.len() > 0
        invariant
            stack@.len() + out@.len() == n,
            n == orig.len(),
            forall|k: int| 0 <= k < stack@.len() ==> #[trigger] stack@[k] == orig[n - 1 - k],
            forall|j: int| 0 <= j < out@.len() ==> from_row_result(orig[j], #[trigger] out@[j]),
        decreases stack@.len(),
    {
        let row = stack.pop().unwrap();
        proof {
            assert(row == orig[out@.len() as int]);
        }
        out.push(ScheduledReminder::from_row(row));
    }
    out
}

/// Each tick box of a row stands for its own day: the row of a reminder ticks
/// exactly the reminder's days, and the reminder saved from a row has exactly
/// the ticked days, and no day beyond the week.
pub proof fn law_row_boxes_are_days(r: ScheduledReminder, row: ReminderRow, g: ScheduledReminder)
    ensures
        to_row_result(r, row) ==> {
            &&& row.sun == has_day(r.days.bits, Weekday::Sun)
            &&& row.mon == has_day(r.days.bits, Weekday::Mon)
            &&& row.tue == has_day(r.days.bits, Weekday::Tue)
            &&& row.wed == has_day(r.days.bits, Weekday::Wed)
            &&& row.thu == has_day(r.days.bits, Weekday::Thu)
            &&& row.fri == has_day(r.days.bits, Weekday::Fri)
            &&& row.sat == has_day(r.days.bits, Weekday::Sat)
        },
        from_row_result(row, g) ==> {
            &&& has_day(g.days.bits, Weekday::Sun) == row.sun
            &&& has_day(g.days.bits, Weekday::Mon) == row.mon
            &&& has_day(g.days.bits, Weekday::Tue) == row.tue
            &&& has_day(g.days.bits, Weekday::Wed) == row.wed
            &&& has_day(g.days.bits, Weekday::Thu) == row.thu
            &&& has_day(g.days.bits, Weekday::Fri) == row.fri
            &&& has_day(g.days.bits, Weekday::Sat) == row.sat
            &&& g.days.bits < 128
        },
{
    let (su, mo, tu, we, th, fr, sa) = (row.sun, row.mon, row.tue, row.wed, row.thu, row.fri, row.sat);
    let x = flags_bits(su, mo, tu, we, th, fr, sa);
    assert(x == (if su { 1u8 } else { 0u8 }) | (if mo { 2u8 } else { 0u8 }) | (if tu { 4u8 } else {
        0u8
    }) | (if we { 8u8 } else { 0u8 }) | (if th { 16u8 } else { 0u8 }) | (if fr { 32u8 } else {
        0u8
    }) | (if sa { 64u8 } else { 0u8 }));
    assert(x == (if su { 1u8 } else { 0u8 }) | (if mo { 2u8 } else { 0u8 }) | (if tu { 4u8 } else {
        0u8
    }) | (if we { 8u8 } else { 0u8 }) | (if th { 16u8 } else { 0u8 }) | (if fr { 32u8 } else {
        0u8
    }) | (if sa { 64u8 } else { 0u8 }) ==> {
        &&& (x & 1 != 0) == su
        &&& (x & 2 != 0) == mo
        &&& (x & 4 != 0) == tu
        &&& (x & 8 != 0) == we
        &&& (x & 16 != 0) == th
        &&& (x & 32 != 0) == fr
        &&& (x & 64 != 0) == sa
        &&& x < 128
    }) by (bit_vector);
}

/// Showing a reminder in the settings window and saving the row unchanged gives
/// back the reminder, except that it counts as not fired yet (saving forgets the
/// last firing date).
pub proof fn law_row_round_trip(r: ScheduledReminder, row: ReminderRow, g: ScheduledReminder)
    requires
        r.wf(),
        r.days.bits < 128,
        to_row_result(r, row),
        from_row_result(row, g),
    ensures
        g.enabled == r.enabled,
        g.time == r.time,
        g.days == r.days,
        g.message == r.message,
        g.last_fired_date is None,
{
    assert(g.time == r.time);
    let x = r.days.bits;
    assert(row_bits(row) == (if x & 1 != 0 { 1u8 } else { 0u8 }) | (if x & 2 != 0 { 2u8 } else {
        0u8
    }) | (if x & 4 != 0 { 4u8 } else { 0u8 }) | (if x & 8 != 0 { 8u8 } else { 0u8 }) | (if x & 16
        != 0 { 16u8 } else { 0u8 }) | (if x & 32 != 0 { 32u8 } else { 0u8 }) | (if x & 64 != 0 {
        64u8
    } else {
        0u8
    }));
    assert(x < 128 ==> (if x & 1 != 0 { 1u8 } else { 0u8 }) | (if x & 2 != 0 { 2u8 } else { 0u8 })
        | (if x & 4 != 0 { 4u8 } else { 0u8 }) | (if x & 8 != 0 { 8u8 } else { 0u8 }) | (if x & 16
        != 0 { 16u8 } else { 0u8 }) | (if x & 32 != 0 { 32u8 } else { 0u8 }) | (if x & 64 != 0 {
        64u8
    } else {
        0u8
    }) == x) by (bit_vector);
}

} // verus!
