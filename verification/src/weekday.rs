use vstd::prelude::*;

verus! {

/// A calendar day of the week.
#[derive(Clone, Copy, PartialEq, Eq, Structural, Debug)]
pub enum Weekday {
    Mon,
    Tue,
    Wed,
    Thu,
    Fri,
    Sat,
    Sun,
}

/// Position of a weekday in calendar order, Sunday first (Sun = 0 .. Sat = 6).
pub open spec fn calendar_index(w: Weekday) -> int {
    match w {
        Weekday::Sun => 0,
        Weekday::Mon => 1,
        Weekday::Tue => 2,
        Weekday::Wed => 3,
        Weekday::Thu => 4,
        Weekday::Fri => 5,
        Weekday::Sat => 6,
    }
}

/// The weekday at a position in calendar order (Sunday first).
pub open spec fn day_at(i: int) -> Weekday {
    if i == 0 {
        Weekday::Sun
    } else if i == 1 {
        Weekday::Mon
    } else if i == 2 {
        Weekday::Tue
    } else if i == 3 {
        Weekday::Wed
    } else if i == 4 {
        Weekday::Thu
    } else if i == 5 {
        Weekday::Fri
    } else {
        Weekday::Sat
    }
}

/// The bit that stands for a weekday in a day-of-week mask (Sunday is bit 0).
pub open spec fn day_bit(w: Weekday) -> u8 {
    match w {
        Weekday::Sun => 1,
        Weekday::Mon => 2,
        Weekday::Tue => 4,
        Weekday::Wed => 8,
        Weekday::Thu => 16,
        Weekday::Fri => 32,
        Weekday::Sat => 64,
    }
}

/// The three-letter English name of a weekday, as written in the settings file.
pub open spec fn day_name(w: Weekday) -> Seq<char> {
    match w {
        Weekday::Sun => seq!['S', 'u', 'n'],
        Weekday::Mon => seq!['M', 'o', 'n'],
        Weekday::Tue => seq!['T', 'u', 'e'],
        Weekday::Wed => seq!['W', 'e', 'd'],
        Weekday::Thu => seq!['T', 'h', 'u'],
        Weekday::Fri => seq!['F', 'r', 'i'],
        Weekday::Sat => seq!['S', 'a', 't'],
    }
}

/// The weekday at a calendar position (Sunday first).
pub fn weekday_at(i: usize) -> (w: Weekday)
    requires
        i < 7,
    ensures
        w == day_at(i as int),
        calendar_index(w) == i,
{
    if i == 0 {
        Weekday::Sun
    } else if i == 1 {
        Weekday::Mon
    } else if i == 2 {
        Weekday::Tue
    } else if i == 3 {
        Weekday::Wed
    } else if i == 4 {
        Weekday::Thu
    } else if i == 5 {
        Weekday::Fri
    } else {
        Weekday::Sat
    }
}

/// The mask bit of a weekday.
pub fn weekday_bit(w: Weekday) -> (b: u8)
    ensures
        b == day_bit(w),
{
    match w {
        Weekday::Sun => 1,
        Weekday::Mon => 2,
        Weekday::Tue => 4,
        Weekday::Wed => 8,
        Weekday::Thu => 16,
        Weekday::Fri => 32,
        Weekday::Sat => 64,
    }
}

/// The three-letter name of a weekday.
pub fn weekday_name(w: Weekday) -> (s: &'static str)
    ensures
        s@ == day_name(w),
{
    match w {
        Weekday::Sun => {
            proof {
                reveal_strlit("Sun");
            }
            "Sun"
        },
        Weekday::Mon => {
            proof {
                reveal_strlit("Mon");
            }
            "Mon"
        },
        Weekday::Tue => {
            proof {
                reveal_strlit("Tue");
            }
            "Tue"
        },
        Weekday::Wed => {
            proof {
                reveal_strlit("Wed");
            }
            "Wed"
        },
        Weekday::Thu => {
            proof {
                reveal_strlit("Thu");
            }
            "Thu"
        },
        Weekday::Fri => {
            proof {
                reveal_strlit("Fri");
            }
            "Fri"
        },
        Weekday::Sat => {
            proof {
                reveal_strlit("Sat");
            }
            "Sat"
        },
    }
}

} // verus!
