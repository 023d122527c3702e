use twob_market_making::{
    backoff_step, classify_simulation, contains_bytes, json_type, parse_timestamp, plan_reaction,
    shrink_flow, start_backoff, timestamp_from_parses, unix_now, BackoffError, BackoffState,
    BackoffStep, Bookkeeping, DelayConfig, EvaluationResult, FeedValue, LiquidityPosition,
    LiquidityPositionBalances, Market, MarketState, PeriodicOutcome, PositionAction,
    ReactivePlan, Reaction, Scheduler, SchedulerCommand, SchedulerEvent, SimulationReport,
    SimulationVerdict, TimestampError, UnhealthySignature,
};

fn signature() -> UnhealthySignature {
    UnhealthySignature { error_code: 6010, log_marker: b"PositionUnhealthy".to_vec() }
}

#[test]
fn parses_jupiter_style_payload() {
    let raw = FeedValue::String("2026-02-16T14:58:01.990650Z".to_string());
    let timestamp = parse_timestamp(Some(&raw), 0).expect("timestamp should parse");
    assert_eq!(timestamp, 1_771_253_881);
}

#[test]
fn parses_numeric_payload() {
    let raw = FeedValue::Number { as_u64: Some(1771255481) };
    let timestamp = parse_timestamp(Some(&raw), 0).expect("timestamp should parse");
    assert_eq!(timestamp, 1_771_255_481);
}

#[test]
fn timestamp_string_forms() {
    let unix = FeedValue::String("1771255481".to_string());
    assert_eq!(parse_timestamp(Some(&unix), 7), Ok(1_771_255_481));
    let offset = FeedValue::String("2026-02-16T16:58:01+02:00".to_string());
    assert_eq!(parse_timestamp(Some(&offset), 7), Ok(1_771_253_881));
    let early = FeedValue::String("1969-12-31T23:59:59Z".to_string());
    assert_eq!(parse_timestamp(Some(&early), 7), Err(TimestampError::BeforeEpoch(-1)));
    let junk = FeedValue::String("yesterday".to_string());
    assert_eq!(parse_timestamp(Some(&junk), 7), Err(TimestampError::Unparseable));
}

#[test]
fn timestamp_fallbacks_and_type_errors() {
    assert_eq!(parse_timestamp(None, 42), Ok(42));
    assert_eq!(parse_timestamp(Some(&FeedValue::Number { as_u64: None }), 0), Err(TimestampError::NotUnsigned));
    assert_eq!(parse_timestamp(Some(&FeedValue::Bool(true)), 0), Err(TimestampError::UnexpectedType("bool")));
    assert_eq!(json_type(&FeedValue::Array), "array");
    assert_eq!(json_type(&FeedValue::Null), "null");
    assert_eq!(timestamp_from_parses(None, Some(5)), Ok(5));
    assert_eq!(timestamp_from_parses(Some(3), Some(5)), Ok(3));
    assert!(unix_now() > 1_600_000_000);
}

#[test]
fn shrinking_is_strict_and_floored() {
    assert_eq!(shrink_flow(0), 1);
    assert_eq!(shrink_flow(1), 1);
    assert_eq!(shrink_flow(2), 1);
    assert_eq!(shrink_flow(50), 49);
    assert_eq!(shrink_flow(100), 99);
    assert_eq!(shrink_flow(10_000), 9_900);
    assert_eq!(shrink_flow(u64::MAX), ((u64::MAX as u128) * 99 / 100) as u64);
}

#[test]
fn simulation_reports_are_classified() {
    let sig = signature();
    assert_eq!(classify_simulation(&SimulationReport::Passed, &sig), SimulationVerdict::Passed);
    let by_code = SimulationReport::Failed { error_code: Some(6010), logs: vec![] };
    assert_eq!(classify_simulation(&by_code, &sig), SimulationVerdict::Unhealthy);
    let by_log = SimulationReport::Failed {
        error_code: None,
        logs: vec![b"Program log: start".to_vec(), b"Error: PositionUnhealthy.".to_vec()],
    };
    assert_eq!(classify_simulation(&by_log, &sig), SimulationVerdict::Unhealthy);
    let other = SimulationReport::Failed { error_code: Some(1), logs: vec![b"insufficient funds".to_vec()] };
    assert_eq!(classify_simulation(&other, &sig), SimulationVerdict::Rejected);
    assert!(contains_bytes(&b"abcabd".to_vec(), &b"abd".to_vec()));
    assert!(!contains_bytes(&b"ab".to_vec(), &b"abd".to_vec()));
    assert!(contains_bytes(&b"ab".to_vec(), &vec![]));
}

#[test]
fn backoff_commits_what_passes_and_fails_on_other_rejections() {
    let s = start_backoff(0, 500);
    assert_eq!(s, BackoffState { base_flow: 1, quote_flow: 500, attempt: 0 });
    assert_eq!(backoff_step(&s, SimulationVerdict::Passed, 5), BackoffStep::Commit { base_flow: 1, quote_flow: 500 });
    assert_eq!(backoff_step(&s, SimulationVerdict::Rejected, 5), BackoffStep::Fail(BackoffError::Rejected));
    assert_eq!(backoff_step(&s, SimulationVerdict::Unhealthy, 5), BackoffStep::Fail(BackoffError::FloorReached));
}

#[test]
fn always_unhealthy_shrinks_until_the_floor() {
    let mut s = start_backoff(5, 1_000);
    let mut steps = 0;
    let outcome = loop {
        steps += 1;
        match backoff_step(&s, SimulationVerdict::Unhealthy, 100) {
            BackoffStep::Retry(next) => {
                assert!(next.base_flow < s.base_flow && next.quote_flow < s.quote_flow);
                assert_eq!(next.attempt, s.attempt + 1);
                s = next;
            }
            other => break other,
        }
    };
    assert_eq!(outcome, BackoffStep::Fail(BackoffError::FloorReached));
    assert_eq!(s.base_flow, 1);
    assert!(steps <= 100);
}

#[test]
fn always_unhealthy_spends_the_budget() {
    let mut s = start_backoff(1_000_000, 1_000_000);
    let mut simulations = 0;
    let outcome = loop {
        simulations += 1;
        match backoff_step(&s, SimulationVerdict::Unhealthy, 3) {
            BackoffStep::Retry(next) => s = next,
            other => break other,
        }
    };
    assert_eq!(outcome, BackoffStep::Fail(BackoffError::AttemptsExhausted));
    assert_eq!(simulations, 3);
    assert_eq!(s.base_flow, 980_100);
}

fn evaluation(action: PositionAction) -> EvaluationResult {
    let market = Market { id: 1, base_flow: 100, quote_flow: 100, end_slot_interval: 10 };
    let bookkeeping = Bookkeeping { base_per_quote: 0, quote_per_base: 0, last_update_slot: 0, slots_without_trade: 0 };
    let position = LiquidityPosition {
        base_balance: 0,
        quote_balance: 0,
        base_debt: 0,
        quote_debt: 0,
        base_flow_u64: 10,
        quote_flow_u64: 2,
        last_update_slot: 0,
        slots_without_trade_snapshot: 0,
        base_per_quote_snapshot: 0,
        quote_per_base_snapshot: 0,
    };
    EvaluationResult {
        action,
        market_state: MarketState { market, bookkeeping, current_slot: 0 },
        position,
        balances: LiquidityPositionBalances { base_balance: 8_000, quote_balance: 0, base_debt: 0, quote_debt: 0 },
    }
}

#[test]
fn notifications_become_plans() {
    let c = DelayConfig::default();
    assert_eq!(plan_reaction(None, &c), ReactivePlan::Unavailable);
    let stop = evaluation(PositionAction::Stop { reference_index: 3 });
    assert_eq!(plan_reaction(Some(&stop), &c), ReactivePlan::Stop { reference_index: 3 });
    // 8000 / (10 - 2) = 1000 units until debt: the normal delay.
    let update = evaluation(PositionAction::UpdateFlows { base_flow: 1, quote_flow: 1, reference_index: 3 });
    assert_eq!(plan_reaction(Some(&update), &c), ReactivePlan::UpdateAfter { delay_ms: 2_000 });
}

#[test]
fn only_the_latest_reactive_update_fires() {
    let s = Scheduler::new();
    let (s, r) = s.step(SchedulerEvent::Notified(ReactivePlan::UpdateAfter { delay_ms: 30 }), 5_000);
    assert_eq!(r, Reaction { cancel_pending: false, command: SchedulerCommand::Schedule { generation: 0, delay_ms: 30 } });
    let (s, r) = s.step(SchedulerEvent::Notified(ReactivePlan::UpdateAfter { delay_ms: 40 }), 5_000);
    assert_eq!(r, Reaction { cancel_pending: true, command: SchedulerCommand::Schedule { generation: 1, delay_ms: 40 } });
    let (s, r) = s.step(SchedulerEvent::TimerFired { generation: 0 }, 5_000);
    assert_eq!(r.command, SchedulerCommand::Idle);
    let (s, r) = s.step(SchedulerEvent::TimerFired { generation: 1 }, 5_000);
    assert_eq!(r.command, SchedulerCommand::RunScheduledUpdate);
    assert_eq!(s.pending, None);
}

#[test]
fn lost_subscription_is_recovered() {
    let s = Scheduler::new();
    let (s, _) = s.step(SchedulerEvent::Notified(ReactivePlan::UpdateAfter { delay_ms: 30 }), 5_000);
    let (s, r) = s.step(SchedulerEvent::SubscriptionClosed, 5_000);
    assert_eq!(r, Reaction { cancel_pending: true, command: SchedulerCommand::Resubscribe { after_ms: 0 } });
    assert!(!s.subscribed && s.running);
    let (s, r) = s.step(SchedulerEvent::ResubscribeFailed, 5_000);
    assert_eq!(r.command, SchedulerCommand::Resubscribe { after_ms: 5_000 });
    let (s, r) = s.step(SchedulerEvent::Resubscribed, 5_000);
    assert_eq!(r.command, SchedulerCommand::Idle);
    assert!(s.subscribed && s.running);
}

#[test]
fn stops_and_interrupts_end_the_agent() {
    let s = Scheduler::new();
    let (s1, r) = s.step(SchedulerEvent::PeriodicTick(PeriodicOutcome::Update { base_flow: 1, quote_flow: 2, reference_index: 3 }), 0);
    assert_eq!(r.command, SchedulerCommand::SubmitUpdate { base_flow: 1, quote_flow: 2, reference_index: 3 });
    assert!(s1.running);
    let (s2, r) = s1.step(SchedulerEvent::Notified(ReactivePlan::Stop { reference_index: 9 }), 0);
    assert_eq!(r.command, SchedulerCommand::SubmitStop { reference_index: 9 });
    assert!(!s2.running);
    let (_, r) = s2.step(SchedulerEvent::Notified(ReactivePlan::UpdateAfter { delay_ms: 1 }), 0);
    assert_eq!(r.command, SchedulerCommand::Idle);
    let (s3, _) = s.step(SchedulerEvent::Notified(ReactivePlan::UpdateAfter { delay_ms: 1 }), 0);
    let (s4, r) = s3.step(SchedulerEvent::Interrupted, 0);
    assert_eq!(r, Reaction { cancel_pending: true, command: SchedulerCommand::Shutdown });
    assert!(!s4.running && s4.pending.is_none());
}
