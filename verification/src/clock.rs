use vstd::prelude::*;

use rand::rngs::StdRng;
use rand::SeedableRng;

use crate::events::EventType;
use crate::text::{decimal, push_decimal};

verus! {

pub const HOURS_PER_DAY: u64 = 24;
pub const TICKS_PER_HOUR: u64 = 1;
pub const TICKS_PER_DAY: u64 = 24;
pub const DAYS_PER_WEEK: u64 = 7;
pub const DAYS_PER_MONTH: u64 = 30;
pub const MONTHS_PER_YEAR: u64 = 12;
pub const TICKS_PER_YEAR: u64 = 8640;

#[verifier::external_type_specification]
#[verifier::external_body]
pub struct ExStdRng(StdRng);

/// Cloning rand's standard generator (its derived `Clone`) copies its state.
pub assume_specification[ <StdRng as Clone>::clone ](rng: &StdRng) -> (res: StdRng)
    ensures
        res == *rng,
;

/// The generator state that `StdRng::seed_from_u64` builds from a seed.
pub uninterp spec fn seeded_rng(seed: u64) -> StdRng;

/// Seeds rand's standard generator with `StdRng::seed_from_u64`.
/// Claimed: the state is a function of the seed alone, named `seeded_rng`.
#[verifier::external_body]
fn rng_from_seed(seed: u64) -> (rng: StdRng)
    ensures
        rng == seeded_rng(seed),
{
    StdRng::seed_from_u64(seed)
}

/// The simulation's clock: a tick counter and the seeded random generator that
/// every random choice of the simulation draws from.
#[derive(Clone, Debug)]
pub struct SimulationClock {
    pub tick: u64,
    pub rng: StdRng,
}

impl SimulationClock {
    /// A clock at tick zero whose generator is seeded with `seed`.
    pub fn new(seed: u64) -> (c: Self)
        ensures
            c.tick == 0,
            c.rng == seeded_rng(seed),
    {
        SimulationClock { tick: 0, rng: rng_from_seed(seed) }
    }

    pub fn advance_tick(&mut self)
        requires
            old(self).tick < u64::MAX,
        ensures
            final(self).tick == old(self).tick + 1,
            final(self).rng == old(self).rng,
    {
        self.tick = self.tick + 1;
    }

    pub fn advance(&mut self, ticks: u64)
        requires
            old(self).tick + ticks <= u64::MAX,
        ensures
            final(self).tick == old(self).tick + ticks,
            final(self).rng == old(self).rng,
    {
        self.tick = self.tick + ticks;
    }

    pub fn hour_of_day(&self) -> (r: u64)
        ensures
            r == self.tick % HOURS_PER_DAY,
    {
        self.tick % HOURS_PER_DAY
    }

    /// The day, counted from 1.
    pub fn day(&self) -> (r: u64)
        ensures
            r == self.tick / HOURS_PER_DAY + 1,
    {
        (self.tick / HOURS_PER_DAY) + 1
    }

    /// Hours 22 to 5.
    pub fn is_night(&self) -> (r: bool)
        ensures
            r == (self.tick % HOURS_PER_DAY >= 22 || self.tick % HOURS_PER_DAY < 6),
    {
        let h = self.hour_of_day();
        h >= 22 || h < 6
    }

    /// Hours 9 to 17.
    pub fn is_work_hours(&self) -> (r: bool)
        ensures
            r == (9 <= self.tick % HOURS_PER_DAY && self.tick % HOURS_PER_DAY < 18),
    {
        let h = self.hour_of_day();
        h >= 9 && h < 18
    }

    pub fn minute_of_hour(&self) -> (r: u64)
        ensures
            r == self.tick % TICKS_PER_HOUR,
    {
        self.tick % TICKS_PER_HOUR
    }

    /// The weekday, 0 for the first day of each week.
    pub fn day_of_week(&self) -> (r: u64)
        ensures
            r == (self.tick / TICKS_PER_DAY) % DAYS_PER_WEEK,
    {
        (self.tick / TICKS_PER_DAY) % DAYS_PER_WEEK
    }

    /// The day within the month, counted from 1.
    pub fn day_of_month(&self) -> (r: u64)
        ensures
            r == (self.tick / TICKS_PER_DAY) % DAYS_PER_MONTH + 1,
    {
        (self.tick / TICKS_PER_DAY) % DAYS_PER_MONTH + 1
    }

    /// The month within the year, counted from 1.
    pub fn month(&self) -> (r: u64)
        ensures
            r == (self.tick as int / (TICKS_PER_DAY * DAYS_PER_MONTH) as int) % MONTHS_PER_YEAR as int + 1,
    {
        (self.tick / (TICKS_PER_DAY * DAYS_PER_MONTH)) % MONTHS_PER_YEAR + 1
    }

    /// The year, counted from 1.
    pub fn year(&self) -> (r: u64)
        ensures
            r == self.tick / TICKS_PER_YEAR + 1,
    {
        self.tick / TICKS_PER_YEAR + 1
    }
}

/// Which calendar periods begin with a tick.
#[derive(Debug, Clone, Copy, PartialEq, Eq, Structural)]
pub struct CalendarTransitions {
    pub hour: bool,
    pub day: bool,
    pub week: bool,
    pub month: bool,
    pub year: bool,
}

/// Whether a period of `unit` ticks turns over between `tick - 1` and `tick`.
pub open spec fn turns_over(tick: u64, unit: int) -> bool {
    tick > 0 && (tick - 1) / unit != tick as int / unit
}

/// The calendar periods that begin with `tick`.
pub open spec fn spec_calendar_transitions(tick: u64) -> CalendarTransitions {
    let day = turns_over(tick, TICKS_PER_DAY as int);
    CalendarTransitions {
        hour: tick > 0 && ((tick - 1) / TICKS_PER_HOUR as int) % HOURS_PER_DAY as int
            != (tick as int / TICKS_PER_HOUR as int) % HOURS_PER_DAY as int,
        day,
        week: day && turns_over(tick, (TICKS_PER_DAY * DAYS_PER_WEEK) as int),
        month: day && turns_over(tick, (TICKS_PER_DAY * DAYS_PER_MONTH) as int),
        year: day && turns_over(tick, TICKS_PER_YEAR as int),
    }
}

/// A period of `unit` ticks turns over exactly at the multiples of `unit`.
pub proof fn lemma_turns_over_at_multiples(tick: u64, unit: int)
    requires
        unit > 0,
    ensures
        turns_over(tick, unit) <==> (tick > 0 && tick as int % unit == 0),
{
    if tick > 0 {
        let t = tick as int;
        let q = t / unit;
        let r = t % unit;
        assert(t == q * unit + r) by {
            vstd::arithmetic::div_mod::lemma_fundamental_div_mod(t, unit);
        }
        if r > 0 {
            vstd::arithmetic::div_mod::lemma_fundamental_div_mod_converse(t - 1, unit, q, r - 1);
        } else {
            assert(t - 1 == (q - 1) * unit + (unit - 1)) by (nonlinear_arith)
                requires
                    t == q * unit + r,
                    r == 0,
            ;
            vstd::arithmetic::div_mod::lemma_fundamental_div_mod_converse(t - 1, unit, q - 1, unit - 1);
        }
    }
}

/// Every tick after the first begins an hour; a day begins exactly when the clock
/// reads hour 0 after the first tick; weeks, months and years begin exactly at the
/// multiples of their lengths in ticks; and each period begins only together with
/// the shorter ones that it is made of.
pub proof fn lemma_calendar_transitions_shape(clock: SimulationClock)
    ensures
        ({
            let t = clock.tick;
            let r = spec_calendar_transitions(t);
            &&& r.hour == (t > 0)
            &&& r.day == (t > 0 && clock.tick % HOURS_PER_DAY == 0)
            &&& r.week == (t > 0 && t as int % (TICKS_PER_DAY * DAYS_PER_WEEK) as int == 0)
            &&& r.month == (t > 0 && t as int % (TICKS_PER_DAY * DAYS_PER_MONTH) as int == 0)
            &&& r.year == (t > 0 && t % TICKS_PER_YEAR == 0)
            &&& r.day ==> r.hour
            &&& r.week ==> r.day
            &&& r.month ==> r.day
            &&& r.year ==> r.month
        }),
{
    let t = clock.tick;
    lemma_turns_over_at_multiples(t, TICKS_PER_DAY as int);
    lemma_turns_over_at_multiples(t, (TICKS_PER_DAY * DAYS_PER_WEEK) as int);
    lemma_turns_over_at_multiples(t, (TICKS_PER_DAY * DAYS_PER_MONTH) as int);
    lemma_turns_over_at_multiples(t, TICKS_PER_YEAR as int);
    if t > 0 {
        let x = t as int;
        assert((x - 1) % 24 != x % 24) by {
            lemma_turns_over_at_multiples(t, 1);
            let q = x / 24;
            let r = x % 24;
            vstd::arithmetic::div_mod::lemma_fundamental_div_mod(x, 24);
            if r > 0 {
                vstd::arithmetic::div_mod::lemma_fundamental_div_mod_converse(x - 1, 24, q, r - 1);
            } else {
                vstd::arithmetic::div_mod::lemma_fundamental_div_mod_converse(x - 1, 24, q - 1, 23);
            }
        }
        if t % 168 == 0 {
            assert(t % 24 == 0) by {
                vstd::arithmetic::div_mod::lemma_fundamental_div_mod(x, 168);
                vstd::arithmetic::div_mod::lemma_fundamental_div_mod_converse(x, 24, (x / 168) * 7, 0);
            }
        }
        if t % 720 == 0 {
            assert(t % 24 == 0) by {
                vstd::arithmetic::div_mod::lemma_fundamental_div_mod(x, 720);
                vstd::arithmetic::div_mod::lemma_fundamental_div_mod_converse(x, 24, (x / 720) * 30, 0);
            }
        }
        if t % 8640 == 0 {
            assert(t % 720 == 0) by {
                vstd::arithmetic::div_mod::lemma_fundamental_div_mod(x, 8640);
                vstd::arithmetic::div_mod::lemma_fundamental_div_mod_converse(x, 720, (x / 8640) * 12, 0);
            }
        }
    }
}

/// The calendar periods that begin with `tick`, compared with the tick before it. A
/// week, a month or a year is only looked at when a day begins. Tick zero begins none.
pub fn calendar_transitions(tick: u64) -> (r: CalendarTransitions)
    ensures
        r == spec_calendar_transitions(tick),
{
    let mut r = CalendarTransitions { hour: false, day: false, week: false, month: false, year: false };
    if tick == 0 {
        return r;
    }
    let prev_tick = tick - 1;
    let prev_hour = (prev_tick / TICKS_PER_HOUR) % HOURS_PER_DAY;
    let curr_hour = (tick / TICKS_PER_HOUR) % HOURS_PER_DAY;
    r.hour = curr_hour != prev_hour;
    let prev_day = prev_tick / TICKS_PER_DAY;
    let curr_day = tick / TICKS_PER_DAY;
    if curr_day != prev_day {
        r.day = true;
        let prev_week = prev_day / DAYS_PER_WEEK;
        let curr_week = curr_day / DAYS_PER_WEEK;
        r.week = curr_week != prev_week;
        let prev_month = prev_day / DAYS_PER_MONTH;
        let curr_month = curr_day / DAYS_PER_MONTH;
        r.month = curr_month != prev_month;
        let prev_year = prev_day / (DAYS_PER_MONTH * MONTHS_PER_YEAR);
        let curr_year = curr_day / (DAYS_PER_MONTH * MONTHS_PER_YEAR);
        r.year = curr_year != prev_year;
        proof {
            lemma_nested_div(prev_tick as int, TICKS_PER_DAY as int, DAYS_PER_WEEK as int);
            lemma_nested_div(tick as int, TICKS_PER_DAY as int, DAYS_PER_WEEK as int);
            lemma_nested_div(prev_tick as int, TICKS_PER_DAY as int, DAYS_PER_MONTH as int);
            lemma_nested_div(tick as int, TICKS_PER_DAY as int, DAYS_PER_MONTH as int);
            lemma_nested_div(prev_tick as int, TICKS_PER_DAY as int, (DAYS_PER_MONTH * MONTHS_PER_YEAR) as int);
            lemma_nested_div(tick as int, TICKS_PER_DAY as int, (DAYS_PER_MONTH * MONTHS_PER_YEAR) as int);
        }
    }
    r
}

/// An event that marks the start of a calendar period: its kind, its id and its text.
#[derive(Debug, Clone)]
pub struct CalendarEvent {
    pub event_type: EventType,
    pub id: String,
    pub description: String,
}

/// The day count of a tick, counted from 0.
pub open spec fn day_number(tick: u64) -> nat {
    (tick / TICKS_PER_DAY) as nat
}

/// The events of the calendar periods that begin with `tick`, in the order hour, day,
/// week, month, year; each as its kind, its id and its text.
pub open spec fn spec_calendar_events(tick: u64) -> Seq<(EventType, Seq<char>, Seq<char>)> {
    let t = spec_calendar_transitions(tick);
    let d = day_number(tick);
    let e0 = Seq::<(EventType, Seq<char>, Seq<char>)>::empty();
    let e1 = if t.hour {
        e0.push((EventType::HourStarted, "evt-hour-"@ + decimal(tick as nat), "Hour "@ + decimal((tick % HOURS_PER_DAY) as nat) + " started"@))
    } else {
        e0
    };
    let e2 = if t.day {
        e1.push((
            EventType::DayStarted,
            "evt-day-"@ + decimal(tick as nat),
            "Day "@ + decimal(d + 1) + " started (month day "@ + decimal(d % DAYS_PER_MONTH as nat + 1) + ")"@,
        ))
    } else {
        e1
    };
    let e3 = if t.week {
        e2.push((EventType::WeekStarted, "evt-week-"@ + decimal(tick as nat), "Week "@ + decimal(d / DAYS_PER_WEEK as nat + 1) + " started"@))
    } else {
        e2
    };
    let e4 = if t.month {
        e3.push((EventType::MonthStarted, "evt-month-"@ + decimal(tick as nat), "Month "@ + decimal(d / DAYS_PER_MONTH as nat + 1) + " started"@))
    } else {
        e3
    };
    if t.year {
        e4.push((
            EventType::YearStarted,
            "evt-year-"@ + decimal(tick as nat),
            "Year "@ + decimal(d / (DAYS_PER_MONTH * MONTHS_PER_YEAR) as nat + 1) + " started"@,
        ))
    } else {
        e4
    }
}

/// Each event as its kind, its id and its text.
pub open spec fn event_views(s: Seq<CalendarEvent>) -> Seq<(EventType, Seq<char>, Seq<char>)> {
    s.map_values(|e: CalendarEvent| (e.event_type, e.id@, e.description@))
}

/// `prefix` followed by the decimal digits of `n`.
fn numbered(prefix: &str, n: u64) -> (r: String)
    ensures
        r@ == prefix@ + decimal(n as nat),
{
    let mut s = prefix.to_owned();
    push_decimal(&mut s, n);
    s
}

/// The events of the calendar periods that begin with `tick` (see
/// `calendar_transitions`), in the order hour, day, week, month, year.
pub fn calendar_events(tick: u64) -> (r: Vec<CalendarEvent>)
    ensures
        event_views(r@) == spec_calendar_events(tick),
{
    let t = calendar_transitions(tick);
    let day = tick / TICKS_PER_DAY;
    let mut events: Vec<CalendarEvent> = Vec::new();
    let ghost d = day_number(tick);
    let ghost e0 = Seq::<(EventType, Seq<char>, Seq<char>)>::empty();
    assert(event_views(events@) =~= e0);
    if t.hour {
        let mut text = numbered("Hour ", tick % HOURS_PER_DAY);
        text.append(" started");
        events.push(CalendarEvent { event_type: EventType::HourStarted, id: numbered("evt-hour-", tick), description: text });
    }
    if t.day {
        let mut text = numbered("Day ", day + 1);
        text.append(" started (month day ");
        push_decimal(&mut text, day % DAYS_PER_MONTH + 1);
        text.append(")");
        events.push(CalendarEvent { event_type: EventType::DayStarted, id: numbered("evt-day-", tick), description: text });
    }
    if t.week {
        let mut text = numbered("Week ", day / DAYS_PER_WEEK + 1);
        text.append(" started");
        events.push(CalendarEvent { event_type: EventType::WeekStarted, id: numbered("evt-week-", tick), description: text });
    }
    if t.month {
        let mut text = numbered("Month ", day / DAYS_PER_MONTH + 1);
        text.append(" started");
        events.push(CalendarEvent { event_type: EventType::MonthStarted, id: numbered("evt-month-", tick), description: text });
    }
    if t.year {
        let mut text = numbered("Year ", day / (DAYS_PER_MONTH * MONTHS_PER_YEAR) + 1);
        text.append(" started");
        events.push(CalendarEvent { event_type: EventType::YearStarted, id: numbered("evt-year-", tick), description: text });
    }
    proof {
        assert(event_views(events@) =~= spec_calendar_events(tick));
    }
    events
}

/// The short name of a weekday, 0 being Monday; "???" past Sunday.
pub open spec fn spec_weekday_name(day_of_week: u64) -> Seq<char> {
    if day_of_week == 0 {
        "Mon"@
    } else if day_of_week == 1 {
        "Tue"@
    } else if day_of_week == 2 {
        "Wed"@
    } else if day_of_week == 3 {
        "Thu"@
    } else if day_of_week == 4 {
        "Fri"@
    } else if day_of_week == 5 {
        "Sat"@
    } else if day_of_week == 6 {
        "Sun"@
    } else {
        "???"@
    }
}

/// The short name of a weekday (as `SimulationClock::day_of_week` counts them).
pub fn weekday_name(day_of_week: u64) -> (r: &'static str)
    ensures
        r@ == spec_weekday_name(day_of_week),
{
    match day_of_week {
        0 => "Mon",
        1 => "Tue",
        2 => "Wed",
        3 => "Thu",
        4 => "Fri",
        5 => "Sat",
        6 => "Sun",
        _ => "???",
    }
}

proof fn lemma_nested_div(x: int, a: int, b: int)
    requires
        x >= 0,
        a > 0,
        b > 0,
    ensures
        (x / a) / b == x / (a * b),
{
    vstd::arithmetic::div_mod::lemma_div_denominator(x, a, b);
}

} // verus!
