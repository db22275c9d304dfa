use n_simulation::{
    routine_status, AgentStatus, RoutineSignals, SimulationClock, TICKS_PER_DAY, TICKS_PER_HOUR,
    TICKS_PER_YEAR,
};

#[test]
fn hour_of_day_progresses() {
    let mut c = SimulationClock::new(42);
    assert_eq!(c.hour_of_day(), 0);
    c.advance(TICKS_PER_HOUR * 12);
    assert_eq!(c.hour_of_day(), 12);
}

#[test]
fn day_progresses() {
    let mut c = SimulationClock::new(42);
    assert_eq!(c.day(), 1);
    c.advance(TICKS_PER_DAY);
    assert_eq!(c.day(), 2);
}

#[test]
fn night_detected() {
    let mut c = SimulationClock::new(42);
    c.tick = 23 * TICKS_PER_HOUR;
    assert!(c.is_night());
    c.tick = 3 * TICKS_PER_HOUR;
    assert!(c.is_night());
    c.tick = 12 * TICKS_PER_HOUR;
    assert!(!c.is_night());
}

#[test]
fn work_hours_detected() {
    let mut c = SimulationClock::new(42);
    c.tick = 10 * TICKS_PER_HOUR;
    assert!(c.is_work_hours());
    c.tick = 20 * TICKS_PER_HOUR;
    assert!(!c.is_work_hours());
}

#[test]
fn calendar_year_month_week() {
    let mut c = SimulationClock::new(42);
    assert_eq!(c.year(), 1);
    assert_eq!(c.month(), 1);
    assert_eq!(c.day_of_week(), 0);
    assert_eq!(c.day_of_month(), 1);
    assert_eq!(c.minute_of_hour(), 0);

    c.advance(TICKS_PER_DAY * 30);
    assert_eq!(c.month(), 2);
    assert_eq!(c.day_of_month(), 1);

    c.advance(TICKS_PER_YEAR);
    assert_eq!(c.year(), 2);
}

/// Thirst, hunger and fatigue at 0.9 with water held, at hour 1 (night), unemployed.
#[test]
fn critical_thirst_takes_priority() {
    let mut c = SimulationClock::new(42);
    c.advance_tick();
    let s = RoutineSignals {
        needs_drinking: true,
        has_water: true,
        needs_eating: true,
        has_food: false,
        needs_sleeping: true,
        needs_resting: true,
        employed: false,
        is_night: c.is_night(),
        is_work_hours: c.is_work_hours(),
    };
    assert_eq!(routine_status(&s), AgentStatus::Drinking, "Critical thirst should trigger drinking first");
}

/// Fatigue 0.9 with hunger and thirst at 0.1, at the tick after hour 23.
#[test]
fn sleep_when_exhausted_at_night() {
    let mut c = SimulationClock::new(42);
    c.tick = 23 * TICKS_PER_HOUR;
    c.advance_tick();
    let s = RoutineSignals {
        needs_drinking: false,
        has_water: false,
        needs_eating: false,
        has_food: false,
        needs_sleeping: true,
        needs_resting: true,
        employed: false,
        is_night: c.is_night(),
        is_work_hours: c.is_work_hours(),
    };
    assert_eq!(routine_status(&s), AgentStatus::Sleeping);
}

/// Employed, needs at 0.1, food and water held, at the tick after hour 10.
#[test]
fn work_during_work_hours_if_employed() {
    let mut c = SimulationClock::new(42);
    c.tick = 10 * TICKS_PER_HOUR;
    c.advance_tick();
    let s = RoutineSignals {
        needs_drinking: false,
        has_water: true,
        needs_eating: false,
        has_food: true,
        needs_sleeping: false,
        needs_resting: false,
        employed: true,
        is_night: c.is_night(),
        is_work_hours: c.is_work_hours(),
    };
    assert_eq!(routine_status(&s), AgentStatus::Working);
}

/// Not employed, needs at 0.1, at the tick after hour 10.
#[test]
fn unemployed_agent_becomes_idle() {
    let mut c = SimulationClock::new(42);
    c.tick = 10 * TICKS_PER_HOUR;
    c.advance_tick();
    let s = RoutineSignals {
        needs_drinking: false,
        has_water: false,
        needs_eating: false,
        has_food: false,
        needs_sleeping: false,
        needs_resting: false,
        employed: false,
        is_night: c.is_night(),
        is_work_hours: c.is_work_hours(),
    };
    assert_eq!(routine_status(&s), AgentStatus::Idle);
}
