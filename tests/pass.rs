use stable_channels::channel::{ChannelId, ChannelSnapshot, NodeId, PeggedChannel, Role};
use stable_channels::engine::{
    check_stability, check_stability_with_price, current_state, force_reconcile, forget_loops,
    get_current_price, LoopAction, LoopPhase,
    PegLoop,
};
use stable_channels::error::PegError;
use stable_channels::payment::{check_payment, open_push_msat, record_payment_result, PaymentOrder};
use stable_channels::policy::{decide, PegDecision};
use stable_channels::reconcile::update_balances;

const RATE: i64 = 5_000_000; // $50,000 per bitcoin

fn peer() -> NodeId {
    NodeId { bytes: [2; 33] }
}

fn snapshot(capacity: u64, outbound_msat: u64) -> ChannelSnapshot {
    ChannelSnapshot {
        channel_id: ChannelId { bytes: [1; 32] },
        counterparty: peer(),
        capacity_sats: capacity,
        outbound_capacity_msat: outbound_msat,
        unspendable_reserve_sats: None,
        is_ready: true,
    }
}

fn record(role: Role, expected_fiat: i128) -> PeggedChannel {
    PeggedChannel {
        channel_id: Some(ChannelId { bytes: [1; 32] }),
        counterparty: peer(),
        role,
        expected_fiat,
        expected_native: 0,
        capacity_native: 0,
        receiver_native: 0,
        receiver_fiat: 0,
        provider_native: 0,
        provider_fiat: 0,
        latest_rate: 0,
        risk_level: 0,
        payment_made: false,
        last_reconciled_at: None,
    }
}

/// A receiver record whose balance is worth $12.50 against a $10.00 target.
fn above_target() -> (PeggedChannel, Vec<ChannelSnapshot>) {
    (record(Role::StableReceiver, 1000), vec![snapshot(100_000, 25_000_000)])
}

#[test]
fn scenario_receiver_above_target_pays() {
    let (mut pc, chs) = above_target();
    update_balances(&mut pc, &chs, RATE, 1).unwrap();
    assert_eq!(pc.receiver_fiat, 1250);
    assert_eq!(pc.receiver_fiat - pc.expected_fiat, 250);
    // $2.50 at $50,000 is 5,000 sats, 5,000,000 msats
    assert_eq!(decide(&pc), Ok(PegDecision::Pay(5_000_000)));
    let mut pc2 = record(Role::StableReceiver, 1000);
    assert_eq!(check_stability(&mut pc2, &chs, RATE, 1), Ok(PegDecision::Pay(5_000_000)));
}

#[test]
fn scenario_high_risk_suspends() {
    let (mut pc, chs) = above_target();
    pc.risk_level = 150;
    assert_eq!(check_stability(&mut pc, &chs, RATE, 1), Ok(PegDecision::Suspended(150)));
    let mut lp = PegLoop::new(record(Role::StableReceiver, 1000));
    lp.record.risk_level = 150;
    assert!(lp.on_trigger());
    assert_eq!(
        lp.on_inputs(&chs, RATE, 1),
        LoopAction::Finished(Ok(PegDecision::Suspended(150)))
    );
    assert_eq!(lp.phase, LoopPhase::Idle);
    assert!(!lp.record.payment_made);
}

#[test]
fn scenario_zero_rate_short_circuits() {
    let (mut pc, chs) = above_target();
    update_balances(&mut pc, &chs, RATE, 1).unwrap();
    let before = pc;
    assert_eq!(check_stability(&mut pc, &chs, 0, 2), Err(PegError::RateUnavailable));
    assert_eq!(pc, before);
    let mut fresh = record(Role::StableReceiver, 1000);
    let untouched = fresh;
    assert_eq!(update_balances(&mut fresh, &chs, 0, 2), Err(PegError::RateUnavailable));
    assert_eq!(fresh, untouched);
    assert_eq!(decide(&fresh), Ok(PegDecision::Unreconciled));
}

#[test]
fn dead_band_is_stable() {
    // target $1,000.00; the receiver holds $1,000.99, under a tenth of a percent off
    let mut pc = record(Role::StableReceiver, 100_000);
    let chs = vec![snapshot(10_000_000, 2_001_980_000)];
    assert_eq!(check_stability(&mut pc, &chs, RATE, 1), Ok(PegDecision::Stable));
    assert_eq!(pc.receiver_fiat, 100_099);
}

#[test]
fn dead_band_edge_is_not_stable() {
    // exactly a tenth of a percent off is outside the dead band
    let mut pc = record(Role::StableReceiver, 100_000);
    let chs = vec![snapshot(10_000_000, 2_002_000_000)];
    assert_eq!(check_stability(&mut pc, &chs, RATE, 1), Ok(PegDecision::Pay(2_000_000)));
    assert_eq!(pc.receiver_fiat, 100_100);
}

#[test]
fn dead_band_second_pass_does_not_drift() {
    let mut pc = record(Role::StableReceiver, 100_000);
    let chs = vec![snapshot(10_000_000, 2_001_980_000)];
    assert_eq!(check_stability(&mut pc, &chs, RATE, 1), Ok(PegDecision::Stable));
    let first = pc;
    assert_eq!(check_stability(&mut pc, &chs, RATE, 2), Ok(PegDecision::Stable));
    assert_eq!(pc, PeggedChannel { last_reconciled_at: Some(2), ..first });
}

#[test]
fn receiver_below_target_waits() {
    let mut pc = record(Role::StableReceiver, 1000);
    let chs = vec![snapshot(100_000, 15_000_000)];
    assert_eq!(check_stability(&mut pc, &chs, RATE, 1), Ok(PegDecision::Wait));
}

#[test]
fn provider_waits_when_receiver_above_target() {
    // the provider's side is ours: 75,000 sats, so the receiver holds $12.50
    let mut pc = record(Role::StableProvider, 1000);
    let chs = vec![snapshot(100_000, 75_000_000)];
    assert_eq!(check_stability(&mut pc, &chs, RATE, 1), Ok(PegDecision::Wait));
    assert_eq!(pc.receiver_fiat, 1250);
}

#[test]
fn provider_pays_when_receiver_below_target() {
    // the receiver holds 15,000 sats, $7.50: the provider owes $2.50
    let mut pc = record(Role::StableProvider, 1000);
    let chs = vec![snapshot(100_000, 85_000_000)];
    assert_eq!(check_stability(&mut pc, &chs, RATE, 1), Ok(PegDecision::Pay(5_000_000)));
}

#[test]
fn zero_target_is_unreconciled() {
    let mut pc = record(Role::StableReceiver, 0);
    let chs = vec![snapshot(100_000, 25_000_000)];
    assert_eq!(check_stability(&mut pc, &chs, RATE, 1), Ok(PegDecision::Unreconciled));
}

#[test]
fn payment_of_nothing_is_refused_first() {
    let mut pc = record(Role::StableReceiver, 1000);
    pc.channel_id = None;
    assert_eq!(check_payment(0, &pc, &Vec::new()), Err(PegError::ZeroAmountPayment));
    let (pc, chs) = above_target();
    assert_eq!(check_payment(0, &pc, &chs), Err(PegError::ZeroAmountPayment));
}

#[test]
fn tiny_deviation_at_huge_rate_is_not_sent() {
    // at $2,000,000 per bitcoin a sat is worth two cents: the receiver's
    // 500 sats are one cent above the $9.99 target, half a sat's worth
    let mut pc = record(Role::StableReceiver, 999);
    let rate = 200_000_000;
    let chs = vec![snapshot(100_000, 500_000)];
    assert_eq!(check_stability(&mut pc, &chs, rate, 1), Err(PegError::ZeroAmountPayment));
    assert_eq!(decide(&pc), Ok(PegDecision::Pay(0)));
}

#[test]
fn payment_checks_in_turn() {
    let (pc, chs) = above_target();
    assert_eq!(
        check_payment(5_000_000, &pc, &chs),
        Ok(PaymentOrder { amount_msat: 5_000_000, destination: peer() })
    );
    let mut unbound = pc;
    unbound.channel_id = None;
    assert_eq!(check_payment(5, &unbound, &chs), Err(PegError::ChannelNotFound));
    assert_eq!(check_payment(5, &pc, &Vec::new()), Err(PegError::ChannelNotFound));
    let mut not_ready = chs.clone();
    not_ready[0].is_ready = false;
    assert_eq!(check_payment(5, &pc, &not_ready), Err(PegError::ChannelNotReady));
    assert_eq!(
        check_payment(25_000_001, &pc, &chs),
        Err(PegError::InsufficientCapacity { outbound_msat: 25_000_000, amount_msat: 25_000_001 })
    );
    let mut stranger = chs.clone();
    stranger[0].counterparty = NodeId { bytes: [3; 33] };
    assert_eq!(check_payment(5, &pc, &stranger), Err(PegError::CounterpartyMismatch));
}

#[test]
fn payment_results_are_recorded() {
    let (mut pc, _) = above_target();
    let before = pc;
    assert_eq!(
        record_payment_result(&mut pc, Err("no route".to_string())),
        Err(PegError::PaymentSendFailed("no route".to_string()))
    );
    assert_eq!(pc, before);
    assert_eq!(record_payment_result(&mut pc, Ok(())), Ok(()));
    assert!(pc.payment_made);
}

#[test]
fn current_price_prefers_cache() {
    assert_eq!(get_current_price(5_000_000, Some(6_000_000)), 5_000_000);
    assert_eq!(get_current_price(0, Some(6_000_000)), 6_000_000);
    assert_eq!(get_current_price(0, Some(-3)), 0);
    assert_eq!(get_current_price(-1, None), 0);
}

#[test]
fn stability_with_price_falls_back_to_cache() {
    let (mut pc, chs) = above_target();
    assert_eq!(check_stability_with_price(&mut pc, &chs, 0, RATE, 1), Ok(PegDecision::Pay(5_000_000)));
    assert_eq!(pc.latest_rate, RATE);
    let (mut pc, chs) = above_target();
    assert_eq!(check_stability_with_price(&mut pc, &chs, 0, 0, 1), Err(PegError::RateUnavailable));
}

#[test]
fn loop_runs_one_pass_at_a_time() {
    let (pc, chs) = above_target();
    let mut lp = PegLoop::new(pc);
    assert_eq!(lp.on_inputs(&chs, RATE, 1), LoopAction::Ignored);
    assert_eq!(lp.on_payment_result(Ok(())), LoopAction::Ignored);
    assert!(lp.on_trigger());
    assert!(!lp.on_trigger());
    let order = PaymentOrder { amount_msat: 5_000_000, destination: peer() };
    assert_eq!(lp.on_inputs(&chs, RATE, 1), LoopAction::Send(order));
    assert_eq!(lp.phase, LoopPhase::Paying(order));
    assert!(!lp.on_trigger());
    assert_eq!(lp.on_payment_result(Ok(())), LoopAction::Finished(Ok(PegDecision::Pay(5_000_000))));
    assert_eq!(lp.phase, LoopPhase::Idle);
    assert!(lp.record.payment_made);
    assert!(lp.on_trigger());
}

#[test]
fn loop_reports_refused_payment() {
    let (pc, chs) = above_target();
    let mut lp = PegLoop::new(pc);
    assert!(lp.on_trigger());
    assert!(matches!(lp.on_inputs(&chs, RATE, 1), LoopAction::Send(_)));
    assert_eq!(
        lp.on_payment_result(Err("peer offline".to_string())),
        LoopAction::Finished(Err(PegError::PaymentSendFailed("peer offline".to_string())))
    );
    assert!(!lp.record.payment_made);
    assert_eq!(lp.phase, LoopPhase::Idle);
}

#[test]
fn loop_reports_failed_reconciliation() {
    let (pc, _) = above_target();
    let mut lp = PegLoop::new(pc);
    assert!(lp.on_trigger());
    assert_eq!(lp.on_inputs(&Vec::new(), RATE, 1), LoopAction::Finished(Err(PegError::ChannelNotFound)));
    assert_eq!(lp.phase, LoopPhase::Idle);
    assert_eq!(lp.record, pc);
}

#[test]
fn current_state_copies_the_bound_record() {
    let (pc, _) = above_target();
    let mut other = pc;
    other.channel_id = Some(ChannelId { bytes: [8; 32] });
    other.expected_fiat = 5;
    let loops = vec![PegLoop::new(other), PegLoop::new(pc)];
    assert_eq!(current_state(&loops, &ChannelId { bytes: [1; 32] }), Some(pc));
    assert_eq!(current_state(&loops, &ChannelId { bytes: [8; 32] }), Some(other));
    assert_eq!(current_state(&loops, &ChannelId { bytes: [3; 32] }), None);
}

#[test]
fn force_reconcile_triggers_only_that_loop() {
    let (pc, _) = above_target();
    let mut other = pc;
    other.channel_id = Some(ChannelId { bytes: [8; 32] });
    let mut loops = vec![PegLoop::new(other), PegLoop::new(pc)];
    assert!(force_reconcile(&mut loops, &ChannelId { bytes: [1; 32] }));
    assert_eq!(loops[1].phase, LoopPhase::Reconciling);
    assert_eq!(loops[0].phase, LoopPhase::Idle);
    assert!(!force_reconcile(&mut loops, &ChannelId { bytes: [1; 32] }));
    assert!(!force_reconcile(&mut loops, &ChannelId { bytes: [3; 32] }));
    assert_eq!(loops[0].phase, LoopPhase::Idle);
}

#[test]
fn open_pushes_half_the_channel() {
    assert_eq!(open_push_msat(100_001), Ok(50_000_000));
    assert_eq!(open_push_msat(0), Ok(0));
    assert_eq!(open_push_msat(u64::MAX), Err(PegError::AmountOutOfRange));
}

#[test]
fn forget_loops_drops_only_the_closed_channel() {
    let (pc, _) = above_target();
    let mut other = pc;
    other.channel_id = Some(ChannelId { bytes: [8; 32] });
    let mut unbound = pc;
    unbound.channel_id = None;
    let mut loops = vec![PegLoop::new(pc), PegLoop::new(other), PegLoop::new(unbound)];
    forget_loops(&mut loops, &ChannelId { bytes: [1; 32] });
    assert_eq!(loops.len(), 2);
    assert_eq!(loops[0].record, other);
    assert_eq!(loops[1].record, unbound);
}
