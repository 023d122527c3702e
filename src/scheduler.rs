//! The adaptive scheduler's decisions. The agent reacts to market-update
//! notifications, to its own timers, to the loss and recovery of its
//! subscription, to the periodic evaluation and to an operator interrupt; this
//! module maps each such event and the current state to the next state and
//! the command to carry out. At most one reactive update is pending at a
//! time, and only the most recently scheduled one can fire.

use vstd::prelude::*;
use crate::position::{calculate_update_delay, slots_until_debt, delay_curve, DelayConfig, EvaluationResult, PositionAction};

verus! {

/// What the evaluation that follows a notification calls for.
#[derive(Clone, Copy, Debug, PartialEq, Eq, Structural)]
pub enum ReactivePlan {
    /// The position has debt: stop it now.
    Stop { reference_index: u64 },
    /// Update the flows after this many milliseconds.
    UpdateAfter { delay_ms: u64 },
    /// The evaluation failed; nothing is scheduled.
    Unavailable,
}

/// What a periodic evaluation concluded.
#[derive(Clone, Copy, Debug, PartialEq, Eq, Structural)]
pub enum PeriodicOutcome {
    Stop { reference_index: u64 },
    Update { base_flow: u64, quote_flow: u64, reference_index: u64 },
    Failed,
}

/// Something that happened to the agent.
#[derive(Clone, Copy, Debug, PartialEq, Eq, Structural)]
pub enum SchedulerEvent {
    /// A market-update notification arrived and was evaluated.
    Notified(ReactivePlan),
    /// The timer of a scheduled update ran out.
    TimerFired { generation: u64 },
    /// The notification stream ended.
    SubscriptionClosed,
    /// An attempt to subscribe again failed.
    ResubscribeFailed,
    /// The subscription is back.
    Resubscribed,
    /// The periodic evaluation finished.
    PeriodicTick(PeriodicOutcome),
    /// The operator asked the agent to stop.
    Interrupted,
}

/// The command to carry out for an event.
#[derive(Clone, Copy, Debug, PartialEq, Eq, Structural)]
pub enum SchedulerCommand {
    Idle,
    /// Start a timer for a reactive update, tagged with its generation.
    Schedule { generation: u64, delay_ms: u64 },
    /// The pending update's timer ran out: evaluate again and submit.
    RunScheduledUpdate,
    /// Submit a stop of the position.
    SubmitStop { reference_index: u64 },
    /// Submit a flow update through the backoff submitter.
    SubmitUpdate { base_flow: u64, quote_flow: u64, reference_index: u64 },
    /// Subscribe again after this many milliseconds.
    Resubscribe { after_ms: u64 },
    /// Stop the agent.
    Shutdown,
}

/// A command, preceded, where `cancel_pending` holds, by cancelling the
/// pending reactive update.
#[derive(Clone, Copy, Debug, PartialEq, Eq, Structural)]
pub struct Reaction {
    pub cancel_pending: bool,
    pub command: SchedulerCommand,
}

/// The scheduler's state.
#[derive(Clone, Copy, Debug, PartialEq, Eq, Structural)]
pub struct Scheduler {
    /// The generation of the pending reactive update, if any.
    pub pending: Option<u64>,
    /// The generation the next scheduled update gets.
    pub next_generation: u64,
    pub subscribed: bool,
    /// False once the agent has decided to stop; every later event is ignored.
    pub running: bool,
}

/// The generation after `g`, wrapping at the top of the range.
pub open spec fn successor(g: u64) -> u64 {
    if g == u64::MAX { 0 } else { (g + 1) as u64 }
}

pub open spec fn reaction(cancel_pending: bool, command: SchedulerCommand) -> Reaction {
    Reaction { cancel_pending, command }
}

/// The next state and the reaction to `event`. `retry_ms` is the wait
/// between two failed attempts to subscribe again.
pub open spec fn transition(s: Scheduler, event: SchedulerEvent, retry_ms: u64) -> (Scheduler, Reaction) {
    let has_pending = s.pending is Some;
    let cleared = Scheduler { pending: None, ..s };
    if !s.running {
        (s, reaction(false, SchedulerCommand::Idle))
    } else {
        match event {
            SchedulerEvent::Notified(ReactivePlan::Stop { reference_index }) =>
                (Scheduler { running: false, ..cleared }, reaction(has_pending, SchedulerCommand::SubmitStop { reference_index })),
            SchedulerEvent::Notified(ReactivePlan::UpdateAfter { delay_ms }) =>
                (Scheduler { pending: Some(s.next_generation), next_generation: successor(s.next_generation), ..s },
                 reaction(has_pending, SchedulerCommand::Schedule { generation: s.next_generation, delay_ms })),
            SchedulerEvent::Notified(ReactivePlan::Unavailable) =>
                (cleared, reaction(has_pending, SchedulerCommand::Idle)),
            SchedulerEvent::TimerFired { generation } =>
                if s.pending == Some(generation) {
                    (cleared, reaction(false, SchedulerCommand::RunScheduledUpdate))
                } else {
                    (s, reaction(false, SchedulerCommand::Idle))
                },
            SchedulerEvent::SubscriptionClosed =>
                (Scheduler { subscribed: false, ..cleared }, reaction(has_pending, SchedulerCommand::Resubscribe { after_ms: 0 })),
            SchedulerEvent::ResubscribeFailed =>
                (s, reaction(false, SchedulerCommand::Resubscribe { after_ms: retry_ms })),
            SchedulerEvent::Resubscribed =>
                (Scheduler { subscribed: true, ..s }, reaction(false, SchedulerCommand::Idle)),
            SchedulerEvent::PeriodicTick(PeriodicOutcome::Stop { reference_index }) =>
                (Scheduler { running: false, ..cleared }, reaction(has_pending, SchedulerCommand::SubmitStop { reference_index })),
            SchedulerEvent::PeriodicTick(PeriodicOutcome::Update { base_flow, quote_flow, reference_index }) =>
                (s, reaction(false, SchedulerCommand::SubmitUpdate { base_flow, quote_flow, reference_index })),
            SchedulerEvent::PeriodicTick(PeriodicOutcome::Failed) =>
                (s, reaction(false, SchedulerCommand::Idle)),
            SchedulerEvent::Interrupted =>
                (Scheduler { running: false, ..cleared }, reaction(has_pending, SchedulerCommand::Shutdown)),
        }
    }
}

impl Scheduler {
    /// A pending update never carries the generation that comes next.
    pub open spec fn wf(&self) -> bool {
        self.pending is Some ==> self.pending->Some_0 != self.next_generation
    }

    /// A running, subscribed scheduler with nothing pending.
    pub fn new() -> (r: Scheduler)
        ensures
            r == (Scheduler { pending: None, next_generation: 0, subscribed: true, running: true }),
            r.wf(),
    {
        Scheduler { pending: None, next_generation: 0, subscribed: true, running: true }
    }

    /// Handles one event.
    pub fn step(&self, event: SchedulerEvent, retry_ms: u64) -> (r: (Scheduler, Reaction))
        ensures
            r == transition(*self, event, retry_ms),
            self.wf() ==> r.0.wf(),
    {
        let s = *self;
        let has_pending = s.pending.is_some();
        let cleared = Scheduler { pending: None, ..s };
        if !s.running {
            return (s, Reaction { cancel_pending: false, command: SchedulerCommand::Idle });
        }
        match event {
            SchedulerEvent::Notified(ReactivePlan::Stop { reference_index }) =>
                (Scheduler { running: false, ..cleared }, Reaction { cancel_pending: has_pending, command: SchedulerCommand::SubmitStop { reference_index } }),
            SchedulerEvent::Notified(ReactivePlan::UpdateAfter { delay_ms }) => {
                let next = if s.next_generation == u64::MAX { 0 } else { s.next_generation + 1 };
                (Scheduler { pending: Some(s.next_generation), next_generation: next, ..s },
                 Reaction { cancel_pending: has_pending, command: SchedulerCommand::Schedule { generation: s.next_generation, delay_ms } })
            },
            SchedulerEvent::Notified(ReactivePlan::Unavailable) =>
                (cleared, Reaction { cancel_pending: has_pending, command: SchedulerCommand::Idle }),
            SchedulerEvent::TimerFired { generation } => {
                let fires = match s.pending {
                    Some(g) => g == generation,
                    None => false,
                };
                if fires {
                    (cleared, Reaction { cancel_pending: false, command: SchedulerCommand::RunScheduledUpdate })
                } else {
                    (s, Reaction { cancel_pending: false, command: SchedulerCommand::Idle })
                }
            },
            SchedulerEvent::SubscriptionClosed =>
                (Scheduler { subscribed: false, ..cleared }, Reaction { cancel_pending: has_pending, command: SchedulerCommand::Resubscribe { after_ms: 0 } }),
            SchedulerEvent::ResubscribeFailed =>
                (s, Reaction { cancel_pending: false, command: SchedulerCommand::Resubscribe { after_ms: retry_ms } }),
            SchedulerEvent::Resubscribed =>
                (Scheduler { subscribed: true, ..s }, Reaction { cancel_pending: false, command: SchedulerCommand::Idle }),
            SchedulerEvent::PeriodicTick(PeriodicOutcome::Stop { reference_index }) =>
                (Scheduler { running: false, ..cleared }, Reaction { cancel_pending: has_pending, command: SchedulerCommand::SubmitStop { reference_index } }),
            SchedulerEvent::PeriodicTick(PeriodicOutcome::Update { base_flow, quote_flow, reference_index }) =>
                (s, Reaction { cancel_pending: false, command: SchedulerCommand::SubmitUpdate { base_flow, quote_flow, reference_index } }),
            SchedulerEvent::PeriodicTick(PeriodicOutcome::Failed) =>
                (s, Reaction { cancel_pending: false, command: SchedulerCommand::Idle }),
            SchedulerEvent::Interrupted =>
                (Scheduler { running: false, ..cleared }, Reaction { cancel_pending: has_pending, command: SchedulerCommand::Shutdown }),
        }
    }
}

/// The plan that a notification's evaluation calls for: stop on debt,
/// otherwise an update after the adaptive delay; nothing where the
/// evaluation failed.
pub open spec fn plan_of(evaluation: Option<EvaluationResult>, config: DelayConfig) -> ReactivePlan {
    match evaluation {
        None => ReactivePlan::Unavailable,
        Some(e) => match e.action {
            PositionAction::Stop { reference_index } => ReactivePlan::Stop { reference_index },
            PositionAction::UpdateFlows { .. } => ReactivePlan::UpdateAfter {
                delay_ms: match slots_until_debt(e.position, e.market_state.market, e.balances) {
                    Some(s) => delay_curve(s, config),
                    None => config.normal_delay_ms as int,
                } as u64,
            },
        },
    }
}

/// Turns the evaluation that follows a notification into a reactive plan.
pub fn plan_reaction(evaluation: Option<&EvaluationResult>, delay_config: &DelayConfig) -> (r: ReactivePlan)
    requires
        delay_config.wf(),
    ensures
        r == plan_of(match evaluation { Some(e) => Some(*e), None => None }, *delay_config),
{
    match evaluation {
        None => ReactivePlan::Unavailable,
        Some(e) => match e.action {
            PositionAction::Stop { reference_index } => ReactivePlan::Stop { reference_index },
            PositionAction::UpdateFlows { .. } => ReactivePlan::UpdateAfter {
                delay_ms: calculate_update_delay(&e.position, &e.market_state, &e.balances, delay_config),
            },
        },
    }
}

/// Single flight: once a newer notification has been handled, the update
/// that was pending before it can no longer fire.
pub proof fn lemma_superseded_update_never_fires(
    s: Scheduler,
    plan: ReactivePlan,
    old_generation: u64,
    retry_ms: u64,
)
    requires
        s.wf(),
        s.pending == Some(old_generation),
    ensures
        ({
            let after = transition(s, SchedulerEvent::Notified(plan), retry_ms).0;
            transition(after, SchedulerEvent::TimerFired { generation: old_generation }, retry_ms).1.command
                == SchedulerCommand::Idle
        }),
{
}

} // verus!
