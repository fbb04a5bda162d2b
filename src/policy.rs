use vstd::prelude::*;

use crate::channel::{PeggedChannel, Role};
use crate::error::PegError;
use crate::money::{
    abs, lemma_fiat_in_range, sats_of, to_msat, to_native_subunit, Cents, Msats, MSATS_PER_SAT,
    SATS_PER_BTC,
};

verus! {

/// Above this risk level corrective payments are withheld.
pub const RISK_SUSPEND_THRESHOLD: u64 = 100;

/// The dead band, in thousandths of the target: deviations below a tenth of
/// a percent call for no correction.
pub const DEAD_BAND_PER_MILLE: i128 = 1;

/// What one pass decides for a pegged channel.
#[derive(Clone, Copy, Debug, PartialEq, Eq, Structural)]
pub enum PegDecision {
    /// Within the dead band: nothing to do.
    Stable,
    /// The counterparty is the one expected to pay.
    Wait,
    /// Pay the counterparty this many millisatoshis.
    Pay(Msats),
    /// Off target, but the risk level withholds payments.
    Suspended(u64),
    /// No rate, no balances or no usable target: nothing can be decided.
    Unreconciled,
}

/// The record carries what a decision needs: a rate, reconciled balances and
/// a positive target.
pub open spec fn is_decidable(pc: PeggedChannel) -> bool {
    &&& pc.latest_rate > 0
    &&& pc.is_reconciled()
    &&& pc.expected_fiat > 0
}

/// How far the receiver's fiat balance is above (positive) or below
/// (negative) the target.
pub open spec fn deviation(pc: PeggedChannel) -> int {
    pc.receiver_fiat - pc.expected_fiat
}

/// The deviation is under a tenth of a percent of the target.
pub open spec fn in_dead_band(deviation: int, expected: int) -> bool {
    abs(deviation) * 1000 < abs(expected) * DEAD_BAND_PER_MILLE
}

/// The counterparty, not the local party, is the one that should pay.
pub open spec fn other_party_pays(role: Role, receiver_below_target: bool) -> bool {
    (role == Role::StableReceiver && receiver_below_target) || (role == Role::StableProvider
        && !receiver_below_target)
}

/// The corrective payment in millisatoshis: the deviation converted to whole
/// satoshis at the latest rate, then scaled exactly.
pub open spec fn payment_msat(pc: PeggedChannel) -> int {
    sats_of(abs(deviation(pc)), pc.latest_rate as int) * MSATS_PER_SAT
}

/// The decision for `pc`, steps taken in order: unreconciled, dead band,
/// risk gate, direction, payment.
pub open spec fn decision_of(pc: PeggedChannel) -> Result<PegDecision, PegError> {
    if !is_decidable(pc) {
        Ok(PegDecision::Unreconciled)
    } else if in_dead_band(deviation(pc), pc.expected_fiat as int) {
        Ok(PegDecision::Stable)
    } else if pc.risk_level > RISK_SUSPEND_THRESHOLD {
        Ok(PegDecision::Suspended(pc.risk_level))
    } else if other_party_pays(pc.role, pc.receiver_fiat < pc.expected_fiat) {
        Ok(PegDecision::Wait)
    } else if payment_msat(pc) <= u64::MAX {
        Ok(PegDecision::Pay(payment_msat(pc) as Msats))
    } else {
        Err(PegError::AmountOutOfRange)
    }
}

proof fn lemma_dead_band_by_division(d: int, e: int)
    requires
        d >= 0,
        e >= 1,
    ensures
        (d * 1000 < e) == (d <= (e - 1) / 1000),
{
    let q = (e - 1) / 1000;
    assert(q * 1000 <= e - 1 < q * 1000 + 1000) by (nonlinear_arith)
        requires
            q == (e - 1) / 1000,
            e >= 1,
    ;
    if d <= q {
        assert(d * 1000 <= q * 1000) by (nonlinear_arith)
            requires
                d <= q,
        ;
    } else {
        assert(d * 1000 >= (q + 1) * 1000) by (nonlinear_arith)
            requires
                d >= q + 1,
        ;
    }
}

/// Classifies the deviation of a well-formed record into a decision; errs
/// only where the payment does not fit in a `u64` of millisatoshis.
pub fn decide(pc: &PeggedChannel) -> (r: Result<PegDecision, PegError>)
    requires
        pc.wf(),
    ensures
        r == decision_of(*pc),
{
    if pc.latest_rate <= 0 || pc.last_reconciled_at.is_none() || pc.expected_fiat <= 0 {
        return Ok(PegDecision::Unreconciled);
    }
    proof {
        lemma_fiat_in_range(pc.receiver_native as int, pc.latest_rate as int);
    }
    let dev: Cents = pc.receiver_fiat - pc.expected_fiat;
    let abs_dev: Cents = if dev < 0 {
        -dev
    } else {
        dev
    };
    proof {
        lemma_dead_band_by_division(abs_dev as int, pc.expected_fiat as int);
    }
    if abs_dev <= (pc.expected_fiat - 1) / 1000 {
        return Ok(PegDecision::Stable);
    }
    if pc.risk_level > RISK_SUSPEND_THRESHOLD {
        return Ok(PegDecision::Suspended(pc.risk_level));
    }
    let below = pc.receiver_fiat < pc.expected_fiat;
    let other_pays = match pc.role {
        Role::StableReceiver => below,
        Role::StableProvider => !below,
    };
    if other_pays {
        return Ok(PegDecision::Wait);
    }
    let sats = match to_native_subunit(abs_dev, pc.latest_rate) {
        Ok(s) => s,
        Err(e) => {
            proof {
                assert(sats_of(abs_dev as int, pc.latest_rate as int) > u64::MAX);
                assert(payment_msat(*pc) > u64::MAX);
            }
            return Err(e);
        },
    };
    match to_msat(sats) {
        Ok(m) => Ok(PegDecision::Pay(m)),
        Err(e) => Err(e),
    }
}

/// Inside the dead band a reconciled record is always `Stable`.
pub proof fn lemma_dead_band_is_stable(pc: PeggedChannel)
    requires
        is_decidable(pc),
        in_dead_band(deviation(pc), pc.expected_fiat as int),
    ensures
        decision_of(pc) == Ok::<PegDecision, PegError>(PegDecision::Stable),
{
}

/// Above the risk threshold no payment is ever decided; outside the dead
/// band the decision is `Suspended` with the risk level, whatever the size or
/// direction of the deviation.
pub proof fn lemma_risk_gate(pc: PeggedChannel)
    requires
        pc.risk_level > RISK_SUSPEND_THRESHOLD,
    ensures
        !(decision_of(pc) matches Ok(PegDecision::Pay(_))),
        is_decidable(pc) && !in_dead_band(deviation(pc), pc.expected_fiat as int) ==> decision_of(
            pc,
        ) == Ok::<PegDecision, PegError>(PegDecision::Suspended(pc.risk_level)),
{
}

/// For the stable receiver outside the dead band and under the risk
/// threshold: below target it waits for the provider; above target it pays,
/// a positive amount wherever the deviation is worth at least a satoshi.
pub proof fn lemma_receiver_direction(pc: PeggedChannel)
    requires
        pc.role == Role::StableReceiver,
        is_decidable(pc),
        pc.risk_level <= RISK_SUSPEND_THRESHOLD,
        !in_dead_band(deviation(pc), pc.expected_fiat as int),
    ensures
        pc.receiver_fiat < pc.expected_fiat ==> decision_of(pc) == Ok::<PegDecision, PegError>(
            PegDecision::Wait,
        ),
        pc.receiver_fiat > pc.expected_fiat && payment_msat(pc) <= u64::MAX ==> decision_of(pc)
            == Ok::<PegDecision, PegError>(PegDecision::Pay(payment_msat(pc) as Msats)),
        pc.receiver_fiat > pc.expected_fiat && abs(deviation(pc)) * SATS_PER_BTC
            >= pc.latest_rate ==> payment_msat(pc) > 0,
{
    let d = abs(deviation(pc));
    let r = pc.latest_rate as int;
    if pc.receiver_fiat > pc.expected_fiat && d * SATS_PER_BTC >= r {
        assert(d * (SATS_PER_BTC as int) / r >= 1) by (nonlinear_arith)
            requires
                d * (SATS_PER_BTC as int) >= r,
                r > 0,
        ;
    }
}

} // verus!
