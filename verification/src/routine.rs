use vstd::prelude::*;

use crate::events::EventType;
use crate::resources::AgentStatus;

verus! {

/// What an agent's daily routine looks at: its needs, what it holds, whether it has
/// an employer, and the time of day.
#[derive(Debug, Clone, Copy, PartialEq, Eq, Structural)]
pub struct RoutineSignals {
    pub needs_drinking: bool,
    pub has_water: bool,
    pub needs_eating: bool,
    pub has_food: bool,
    pub needs_sleeping: bool,
    pub needs_resting: bool,
    pub employed: bool,
    pub is_night: bool,
    pub is_work_hours: bool,
}

/// The routine's priorities: drink when thirsty and holding water; eat when hungry and
/// holding food; sleep when exhausted at night; rest when tired; work when employed
/// during work hours; sleep when exhausted at any other time; otherwise idle.
pub open spec fn spec_routine_status(s: RoutineSignals) -> AgentStatus {
    if s.needs_drinking && s.has_water {
        AgentStatus::Drinking
    } else if s.needs_eating && s.has_food {
        AgentStatus::Eating
    } else if s.needs_sleeping && s.is_night {
        AgentStatus::Sleeping
    } else if s.needs_resting {
        AgentStatus::Resting
    } else if s.employed && s.is_work_hours {
        AgentStatus::Working
    } else if s.needs_sleeping {
        AgentStatus::Sleeping
    } else {
        AgentStatus::Idle
    }
}

/// The event that entering a status records, where it records one.
pub open spec fn spec_start_event(status: AgentStatus) -> Option<EventType> {
    match status {
        AgentStatus::Working => Some(EventType::AgentStartedWork),
        AgentStatus::Sleeping => Some(EventType::AgentStartedSleep),
        AgentStatus::Resting => Some(EventType::AgentStartedRest),
        _ => None,
    }
}

/// The status the routine picks for an agent.
pub fn routine_status(signals: &RoutineSignals) -> (r: AgentStatus)
    ensures
        r == spec_routine_status(*signals),
{
    if signals.needs_drinking && signals.has_water {
        AgentStatus::Drinking
    } else if signals.needs_eating && signals.has_food {
        AgentStatus::Eating
    } else if signals.needs_sleeping && signals.is_night {
        AgentStatus::Sleeping
    } else if signals.needs_resting {
        AgentStatus::Resting
    } else if signals.employed && signals.is_work_hours {
        AgentStatus::Working
    } else if signals.needs_sleeping {
        AgentStatus::Sleeping
    } else {
        AgentStatus::Idle
    }
}

/// One step of an agent's routine: its next status, the event that a change of status
/// records, and whether the change ends a spell of work.
#[derive(Debug, Clone, Copy, PartialEq, Eq, Structural)]
pub struct RoutineStep {
    pub status: AgentStatus,
    pub started: Option<EventType>,
    pub stopped_work: bool,
}

/// Picks the next status of an agent that is now in `current`. A change of status
/// records the start of work, sleep or rest, and the end of work where the agent was
/// working; keeping the status records nothing.
pub fn routine_step(current: AgentStatus, signals: &RoutineSignals) -> (r: RoutineStep)
    ensures
        r.status == spec_routine_status(*signals),
        r.started == (if r.status != current { spec_start_event(r.status) } else { None }),
        r.stopped_work == (r.status != current && current == AgentStatus::Working),
{
    let status = routine_status(signals);
    if status != current {
        let started = match status {
            AgentStatus::Working => Some(EventType::AgentStartedWork),
            AgentStatus::Sleeping => Some(EventType::AgentStartedSleep),
            AgentStatus::Resting => Some(EventType::AgentStartedRest),
            _ => None,
        };
        RoutineStep { status, started, stopped_work: current == AgentStatus::Working }
    } else {
        RoutineStep { status, started: None, stopped_work: false }
    }
}

/// The routine never sends an agent to drink without water or to eat without food,
/// puts an agent to work only when it is employed and it is work hours, puts an agent
/// to sleep only when exhausted, and lets a thirsty agent that holds water drink
/// before anything else.
pub proof fn lemma_routine_priorities(s: RoutineSignals)
    ensures
        spec_routine_status(s) == AgentStatus::Drinking <==> s.needs_drinking && s.has_water,
        spec_routine_status(s) == AgentStatus::Eating ==> s.needs_eating && s.has_food,
        spec_routine_status(s) == AgentStatus::Working ==> s.employed && s.is_work_hours,
        spec_routine_status(s) == AgentStatus::Sleeping ==> s.needs_sleeping,
        spec_routine_status(s) == AgentStatus::Resting ==> s.needs_resting,
        spec_routine_status(s) != AgentStatus::Active && spec_routine_status(s) != AgentStatus::Unemployed,
{
}

/// The routine's order of priority, each status taken when every status above it does
/// not apply: drink (thirsty, holding water), eat (hungry, holding food), sleep at night
/// (exhausted), rest (tired), work (employed, in work hours), sleep (exhausted), idle.
pub proof fn lemma_routine_order(s: RoutineSignals)
    ensures
        ({
            let drink = s.needs_drinking && s.has_water;
            let eat = s.needs_eating && s.has_food;
            let night_sleep = s.needs_sleeping && s.is_night;
            let work = s.employed && s.is_work_hours;
            &&& spec_routine_status(s) == AgentStatus::Drinking <==> drink
            &&& spec_routine_status(s) == AgentStatus::Eating <==> !drink && eat
            &&& spec_routine_status(s) == AgentStatus::Resting <==> !drink && !eat && !night_sleep && s.needs_resting
            &&& spec_routine_status(s) == AgentStatus::Working <==> !drink && !eat && !night_sleep && !s.needs_resting
                && work
            &&& spec_routine_status(s) == AgentStatus::Sleeping <==> !drink && !eat && (night_sleep || (
            !s.needs_resting && !work && s.needs_sleeping))
            &&& spec_routine_status(s) == AgentStatus::Idle <==> !drink && !eat && !s.needs_sleeping
                && !s.needs_resting && !work
        }),
{
}

} // verus!
