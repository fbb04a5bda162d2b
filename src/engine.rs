use vstd::prelude::*;

use crate::channel::{
    is_bound_to, is_first_match, lemma_first_match_unique, our_side, same_bytes, ChannelId,
    ChannelSnapshot, PeggedChannel, Role,
};
use crate::error::PegError;
use crate::money::{lemma_fiat_in_range, CentsPerBtc};
use crate::payment::{check_payment, payment_check, record_payment_result, PaymentOrder};
use crate::policy::{
    decide, decision_of, deviation, in_dead_band, lemma_risk_gate, PegDecision,
    RISK_SUSPEND_THRESHOLD,
};
use crate::reconcile::{reconciled, split_for, target_index, update_balances};

verus! {

/// The rate to use: the cached one where it is known, else a freshly fetched
/// one where that is known, else zero ("unknown").
pub open spec fn current_price(cached: int, fetched: Option<CentsPerBtc>) -> int {
    if cached > 0 {
        cached
    } else {
        match fetched {
            Some(p) => if p > 0 {
                p as int
            } else {
                0
            },
            None => 0,
        }
    }
}

/// Picks the rate for a pass, preferring the cached one.
pub fn get_current_price(cached: CentsPerBtc, fetched: Option<CentsPerBtc>) -> (r: CentsPerBtc)
    ensures
        r == current_price(cached as int, fetched),
{
    if cached > 0 {
        return cached;
    }
    match fetched {
        Some(p) => if p > 0 {
            p
        } else {
            0
        },
        None => 0,
    }
}

/// One pass over `pc` at a fresh `rate`: reconcile, decide, and check any
/// payment; the decision and the record after the pass.
pub open spec fn stability_pass(
    pc: PeggedChannel,
    chs: Seq<ChannelSnapshot>,
    rate: int,
    now: u64,
) -> (Result<PegDecision, PegError>, PeggedChannel) {
    if rate <= 0 {
        (Err(PegError::RateUnavailable), pc)
    } else {
        let i = target_index(pc, chs);
        if i < 0 {
            (Err(PegError::ChannelNotFound), pc)
        } else if our_side(chs[i]) > chs[i].capacity_sats {
            (Err(PegError::InconsistentSnapshot), pc)
        } else {
            let next = reconciled(pc, chs[i], rate, now);
            match decision_of(next) {
                Ok(PegDecision::Pay(amount)) => match payment_check(amount, next, chs) {
                    Ok(_) => (Ok(PegDecision::Pay(amount)), next),
                    Err(e) => (Err(e), next),
                },
                other => (other, next),
            }
        }
    }
}

/// Runs one pass over `pc` at a fresh `rate`: no pass runs without one, a
/// failed reconciliation ends the pass, and a `Pay` decision is returned
/// only once the payment passed every check. The caller sends the payment
/// (`Pay(amount)` to the record's counterparty) and reports the answer with
/// `record_payment_result`.
pub fn check_stability(
    pc: &mut PeggedChannel,
    channels: &Vec<ChannelSnapshot>,
    rate: CentsPerBtc,
    now: u64,
) -> (r: Result<PegDecision, PegError>)
    ensures
        (r, *final(pc)) == stability_pass(*old(pc), channels@, rate as int, now),
        old(pc).wf() ==> final(pc).wf(),
        r matches Ok(PegDecision::Pay(amount)) ==> payment_check(amount, *final(pc), channels@)
            is Ok && amount > 0,
{
    if rate <= 0 {
        return Err(PegError::RateUnavailable);
    }
    match update_balances(pc, channels, rate, now) {
        Ok(()) => {},
        Err(e) => {
            return Err(e);
        },
    }
    let d = match decide(pc) {
        Ok(d) => d,
        Err(e) => {
            return Err(e);
        },
    };
    match d {
        PegDecision::Pay(amount) => match check_payment(amount, pc, channels) {
            Ok(_) => Ok(d),
            Err(e) => Err(e),
        },
        _ => Ok(d),
    }
}

/// Runs one pass at `price` where it is positive, else at the `cached` rate.
pub fn check_stability_with_price(
    pc: &mut PeggedChannel,
    channels: &Vec<ChannelSnapshot>,
    price: CentsPerBtc,
    cached: CentsPerBtc,
    now: u64,
) -> (r: Result<PegDecision, PegError>)
    ensures
        (r, *final(pc)) == stability_pass(
            *old(pc),
            channels@,
            if price > 0 {
                price as int
            } else {
                cached as int
            },
            now,
        ),
        old(pc).wf() ==> final(pc).wf(),
{
    let rate = if price > 0 {
        price
    } else {
        cached
    };
    check_stability(pc, channels, rate, now)
}

/// A pass that finds the record stable leaves it so that a second pass over
/// the same channels at the same rate finds it stable again, with the same
/// balances: only the reconciliation time moves.
pub proof fn lemma_dead_band_idempotent(
    pc: PeggedChannel,
    chs: Seq<ChannelSnapshot>,
    rate: int,
    now: u64,
    later: u64,
)
    requires
        stability_pass(pc, chs, rate, now).0 == Ok::<PegDecision, PegError>(PegDecision::Stable),
    ensures
        ({
            let first = stability_pass(pc, chs, rate, now).1;
            let second = stability_pass(first, chs, rate, later);
            &&& second.0 == Ok::<PegDecision, PegError>(PegDecision::Stable)
            &&& second.1 == (PeggedChannel { last_reconciled_at: Some(later), ..first })
        }),
{
    let i = target_index(pc, chs);
    let first = reconciled(pc, chs[i], rate, now);
    match pc.channel_id {
        Some(id) => {
            assert(exists|k: int| is_first_match(chs, id@, k));
        },
        None => {
            assert(is_first_match(chs, chs[0].channel_id@, 0));
            lemma_first_match_unique(chs, chs[0].channel_id@, 0);
        },
    }
    assert(target_index(first, chs) == i);
    let second = reconciled(first, chs[i], rate, later);
    assert(second == (PeggedChannel { last_reconciled_at: Some(later), ..first }));
}

/// Where the reconciliation loop of one record stands.
#[derive(Clone, Copy, Debug, PartialEq, Eq)]
pub enum LoopPhase {
    /// No pass in flight.
    Idle,
    /// A trigger was accepted; waiting for the rate and the channel list.
    Reconciling,
    /// A checked payment was handed out; waiting for the runtime's answer.
    Paying(PaymentOrder),
}

/// What the runner of the loop has to do next.
#[derive(Debug, PartialEq, Eq)]
pub enum LoopAction {
    /// The input did not fit the current phase and was dropped.
    Ignored,
    /// Send this payment and report the answer with `on_payment_result`.
    Send(PaymentOrder),
    /// The pass is over with this outcome.
    Finished(Result<PegDecision, PegError>),
}

/// The reconciliation loop of one pegged channel, with at most one pass in
/// flight: triggers that arrive during a pass are dropped.
#[derive(Clone, Copy, Debug)]
pub struct PegLoop {
    pub record: PeggedChannel,
    pub phase: LoopPhase,
}

impl PegLoop {
    /// A loop over `record`, idle.
    pub fn new(record: PeggedChannel) -> (r: PegLoop)
        ensures
            r.record == record,
            r.phase == LoopPhase::Idle,
    {
        PegLoop { record, phase: LoopPhase::Idle }
    }

    /// A timer tick or a channel event: starts a pass if none is in flight.
    pub fn on_trigger(&mut self) -> (started: bool)
        ensures
            started == (old(self).phase == LoopPhase::Idle),
            started ==> *final(self) == (PegLoop { phase: LoopPhase::Reconciling, ..*old(self) }),
            !started ==> *final(self) == *old(self),
    {
        match self.phase {
            LoopPhase::Idle => {
                self.phase = LoopPhase::Reconciling;
                true
            },
            _ => false,
        }
    }

    /// The rate and the channel list for the pass in flight: runs the pass,
    /// and hands out the payment where one is due.
    pub fn on_inputs(&mut self, channels: &Vec<ChannelSnapshot>, rate: CentsPerBtc, now: u64) -> (r:
        LoopAction)
        ensures
            old(self).phase != LoopPhase::Reconciling ==> r == LoopAction::Ignored && *final(self)
                == *old(self),
            old(self).phase == LoopPhase::Reconciling ==> ({
                let (outcome, next) = stability_pass(old(self).record, channels@, rate as int, now);
                &&& final(self).record == next
                &&& match outcome {
                    Ok(PegDecision::Pay(amount)) => {
                        let order = PaymentOrder {
                            amount_msat: amount,
                            destination: next.counterparty,
                        };
                        &&& r == LoopAction::Send(order)
                        &&& final(self).phase == LoopPhase::Paying(order)
                    },
                    _ => r == LoopAction::Finished(outcome) && final(self).phase
                        == LoopPhase::Idle,
                }
            }),
            r matches LoopAction::Send(o) ==> o.amount_msat > 0 && payment_check(
                o.amount_msat,
                final(self).record,
                channels@,
            ) == Ok::<PaymentOrder, PegError>(o),
            old(self).record.wf() ==> final(self).record.wf(),
    {
        match self.phase {
            LoopPhase::Reconciling => {},
            _ => {
                return LoopAction::Ignored;
            },
        }
        let outcome = check_stability(&mut self.record, channels, rate, now);
        match outcome {
            Ok(PegDecision::Pay(amount)) => {
                let order = PaymentOrder { amount_msat: amount, destination: self.record.counterparty };
                self.phase = LoopPhase::Paying(order);
                LoopAction::Send(order)
            },
            _ => {
                self.phase = LoopPhase::Idle;
                LoopAction::Finished(outcome)
            },
        }
    }

    /// The runtime's answer to the payment handed out: records it and ends
    /// the pass.
    pub fn on_payment_result(&mut self, sent: Result<(), String>) -> (r: LoopAction)
        ensures
            !(old(self).phase is Paying) ==> r == LoopAction::Ignored && *final(self) == *old(
                self,
            ),
            old(self).phase matches LoopPhase::Paying(order) ==> {
                &&& final(self).phase == LoopPhase::Idle
                &&& match sent {
                    Ok(()) => r == LoopAction::Finished(Ok(PegDecision::Pay(order.amount_msat)))
                        && final(self).record == (PeggedChannel {
                        payment_made: true,
                        ..old(self).record
                    }),
                    Err(reason) => r == LoopAction::Finished(
                        Err(PegError::PaymentSendFailed(reason)),
                    ) && final(self).record == old(self).record,
                }
            },
            old(self).record.wf() ==> final(self).record.wf(),
    {
        let order = match self.phase {
            LoopPhase::Paying(order) => order,
            _ => {
                return LoopAction::Ignored;
            },
        };
        self.phase = LoopPhase::Idle;
        match record_payment_result(&mut self.record, sent) {
            Ok(()) => LoopAction::Finished(Ok(PegDecision::Pay(order.amount_msat))),
            Err(e) => LoopAction::Finished(Err(e)),
        }
    }
}

/// `i` is the first loop whose record is bound to channel `id`.
pub open spec fn is_first_loop(loops: Seq<PegLoop>, id: Seq<u8>, i: int) -> bool {
    &&& 0 <= i < loops.len()
    &&& is_bound_to(loops[i].record, id)
    &&& forall|j: int| 0 <= j < i ==> !is_bound_to(loops[j].record, id)
}

/// The position of the first loop bound to channel `id`, if any.
fn find_loop(loops: &Vec<PegLoop>, id: &ChannelId) -> (r: Option<usize>)
    ensures
        match r {
            Some(i) => is_first_loop(loops@, id@, i as int),
            None => forall|j: int| 0 <= j < loops@.len() ==> !is_bound_to(loops@[j].record, id@),
        },
{
    let mut i: usize = 0;
    while i < loops.len()
        invariant
            0 <= i <= loops@.len(),
            forall|j: int| 0 <= j < i ==> !is_bound_to(loops@[j].record, id@),
        decreases loops@.len() - i,
    {
        let bound = match loops[i].record.channel_id {
            Some(c) => same_bytes(&c.bytes, &id.bytes),
            None => false,
        };
        if bound {
            return Some(i);
        }
        i = i + 1;
    }
    None
}

/// A copy of the record of channel `id`, for display; the loops are not
/// touched.
pub fn current_state(loops: &Vec<PegLoop>, id: &ChannelId) -> (r: Option<PeggedChannel>)
    ensures
        match r {
            Some(pc) => exists|i: int| is_first_loop(loops@, id@, i) && pc == loops@[i].record,
            None => forall|j: int| 0 <= j < loops@.len() ==> !is_bound_to(loops@[j].record, id@),
        },
{
    match find_loop(loops, id) {
        Some(i) => Some(loops[i].record),
        None => None,
    }
}

/// A manual trigger for channel `id`: starts a pass of its loop unless one
/// is in flight; whether one started.
pub fn force_reconcile(loops: &mut Vec<PegLoop>, id: &ChannelId) -> (started: bool)
    ensures
        (forall|j: int| 0 <= j < old(loops)@.len() ==> !is_bound_to(old(loops)@[j].record, id@))
            ==> !started && final(loops)@ == old(loops)@,
        forall|i: int| is_first_loop(old(loops)@, id@, i) ==> {
            &&& started == (old(loops)@[i].phase == LoopPhase::Idle)
            &&& started ==> final(loops)@ == old(loops)@.update(
                i,
                PegLoop { phase: LoopPhase::Reconciling, ..old(loops)@[i] },
            )
            &&& !started ==> final(loops)@ == old(loops)@
        },
{
    let i = match find_loop(loops, id) {
        Some(i) => i,
        None => {
            return false;
        },
    };
    proof {
        assert forall|k: int| is_first_loop(old(loops)@, id@, k) implies k == i by {
            if k < i {
                assert(!is_bound_to(old(loops)@[k].record, id@));
            } else if i < k {
                assert(!is_bound_to(old(loops)@[i as int].record, id@));
            }
        }
    }
    let mut lp = loops[i];
    let started = lp.on_trigger();
    if started {
        loops.set(i, lp);
    }
    started
}

/// `loops` without those whose record is bound to channel `id`, in order.
pub open spec fn loops_without_channel(loops: Seq<PegLoop>, id: Seq<u8>) -> Seq<PegLoop>
    decreases loops.len(),
{
    if loops.len() == 0 {
        seq![]
    } else {
        let prefix = loops_without_channel(loops.drop_last(), id);
        if is_bound_to(loops.last().record, id) {
            prefix
        } else {
            prefix.push(loops.last())
        }
    }
}

/// Discards the loops of a channel that closed, keeping the others in order.
pub fn forget_loops(loops: &mut Vec<PegLoop>, closed: &ChannelId)
    ensures
        final(loops)@ == loops_without_channel(old(loops)@, closed@),
{
    let mut kept: Vec<PegLoop> = Vec::new();
    let mut i: usize = 0;
    while i < loops.len()
        invariant
            0 <= i <= loops@.len(),
            loops@ == old(loops)@,
            kept@ == loops_without_channel(loops@.take(i as int), closed@),
        decreases loops@.len() - i,
    {
        proof {
            assert(loops@.take(i + 1).drop_last() == loops@.take(i as int));
            assert(loops@.take(i + 1).last() == loops@[i as int]);
        }
        let lp = loops[i];
        let bound = match lp.record.channel_id {
            Some(c) => same_bytes(&c.bytes, &closed.bytes),
            None => false,
        };
        if !bound {
            kept.push(lp);
        }
        i = i + 1;
    }
    assert(loops@.take(loops@.len() as int) == loops@);
    *loops = kept;
}

/// A pass can reconcile `pc`: the rate is known, the record's channel is
/// live (for an unbound record, exactly one channel is), and its snapshot
/// credits the local side no more than the channel holds.
pub open spec fn pass_can_reconcile(pc: PeggedChannel, chs: Seq<ChannelSnapshot>, rate: int) -> bool {
    let i = target_index(pc, chs);
    &&& rate > 0
    &&& i >= 0
    &&& our_side(chs[i]) <= chs[i].capacity_sats
}

/// A pass that can reconcile leaves a reconciled, well-formed record whose
/// two sides sum exactly to the value of the channel it read.
pub proof fn lemma_pass_conserves(
    pc: PeggedChannel,
    chs: Seq<ChannelSnapshot>,
    rate: CentsPerBtc,
    now: u64,
)
    requires
        pass_can_reconcile(pc, chs, rate as int),
    ensures
        ({
            let next = stability_pass(pc, chs, rate as int, now).1;
            let i = target_index(pc, chs);
            &&& next.receiver_native + next.provider_native == chs[i].capacity_sats
            &&& next.capacity_native == chs[i].capacity_sats
            &&& next.is_reconciled()
            &&& next.wf()
        }),
{
    let i = target_index(pc, chs);
    let (rn, pn) = split_for(pc.role, chs[i]);
    lemma_fiat_in_range(rn, rate as int);
    lemma_fiat_in_range(pn, rate as int);
}

/// Inside the dead band a pass that can reconcile a record with a positive
/// target decides `Stable`: no payment, the payment flag and the risk level
/// unchanged.
pub proof fn lemma_pass_dead_band(
    pc: PeggedChannel,
    chs: Seq<ChannelSnapshot>,
    rate: CentsPerBtc,
    now: u64,
)
    requires
        pass_can_reconcile(pc, chs, rate as int),
        pc.expected_fiat > 0,
        in_dead_band(
            deviation(stability_pass(pc, chs, rate as int, now).1),
            pc.expected_fiat as int,
        ),
    ensures
        stability_pass(pc, chs, rate as int, now).0 == Ok::<PegDecision, PegError>(
            PegDecision::Stable,
        ),
        stability_pass(pc, chs, rate as int, now).1.payment_made == pc.payment_made,
        stability_pass(pc, chs, rate as int, now).1.risk_level == pc.risk_level,
{
}

/// Above the risk threshold no pass ever decides a payment, whatever the
/// inputs, and the payment flag and risk level stay; outside the dead band a
/// pass that can reconcile a record with a positive target decides
/// `Suspended` with the risk level.
pub proof fn lemma_pass_risk_gate(
    pc: PeggedChannel,
    chs: Seq<ChannelSnapshot>,
    rate: CentsPerBtc,
    now: u64,
)
    requires
        pc.risk_level > RISK_SUSPEND_THRESHOLD,
    ensures
        !(stability_pass(pc, chs, rate as int, now).0 matches Ok(PegDecision::Pay(_))),
        stability_pass(pc, chs, rate as int, now).1.payment_made == pc.payment_made,
        stability_pass(pc, chs, rate as int, now).1.risk_level == pc.risk_level,
        pass_can_reconcile(pc, chs, rate as int) && pc.expected_fiat > 0 && !in_dead_band(
            deviation(stability_pass(pc, chs, rate as int, now).1),
            pc.expected_fiat as int,
        ) ==> stability_pass(pc, chs, rate as int, now).0 == Ok::<PegDecision, PegError>(
            PegDecision::Suspended(pc.risk_level),
        ),
{
    if rate > 0 {
        let i = target_index(pc, chs);
        if i >= 0 && our_side(chs[i]) <= chs[i].capacity_sats {
            lemma_risk_gate(reconciled(pc, chs[i], rate as int, now));
        }
    }
}

/// For the stable receiver under the risk threshold, a pass that can
/// reconcile and finds the receiver below a positive target, outside the
/// dead band, waits for the provider: no payment, the flag unchanged.
pub proof fn lemma_pass_receiver_waits(
    pc: PeggedChannel,
    chs: Seq<ChannelSnapshot>,
    rate: CentsPerBtc,
    now: u64,
)
    requires
        pc.role == Role::StableReceiver,
        pc.risk_level <= RISK_SUSPEND_THRESHOLD,
        pc.expected_fiat > 0,
        pass_can_reconcile(pc, chs, rate as int),
        stability_pass(pc, chs, rate as int, now).1.receiver_fiat < pc.expected_fiat,
        !in_dead_band(
            deviation(stability_pass(pc, chs, rate as int, now).1),
            pc.expected_fiat as int,
        ),
    ensures
        stability_pass(pc, chs, rate as int, now).0 == Ok::<PegDecision, PegError>(
            PegDecision::Wait,
        ),
        stability_pass(pc, chs, rate as int, now).1.payment_made == pc.payment_made,
{
}

/// A pass whose decision is a payment of nothing ends in
/// `ZeroAmountPayment`, with no payment and the flag unchanged.
pub proof fn lemma_pass_zero_amount(
    pc: PeggedChannel,
    chs: Seq<ChannelSnapshot>,
    rate: CentsPerBtc,
    now: u64,
)
    requires
        pass_can_reconcile(pc, chs, rate as int),
        decision_of(stability_pass(pc, chs, rate as int, now).1) == Ok::<PegDecision, PegError>(
            PegDecision::Pay(0),
        ),
    ensures
        stability_pass(pc, chs, rate as int, now).0 == Err::<PegDecision, PegError>(
            PegError::ZeroAmountPayment,
        ),
        stability_pass(pc, chs, rate as int, now).1.payment_made == pc.payment_made,
{
}

} // verus!
