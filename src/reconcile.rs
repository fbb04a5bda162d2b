use vstd::prelude::*;

use crate::channel::{
    channel_index, find_channel, our_side, ChannelSnapshot, PeggedChannel, Role,
};
use crate::error::PegError;
use crate::money::{fiat_of, to_fiat, Cents, CentsPerBtc, Sats};

verus! {

/// The rate a reconciliation uses: the supplied one where it is positive,
/// else the record's last one where that is positive, else none (zero).
pub open spec fn effective_rate(supplied: int, latest: int) -> int {
    if supplied > 0 {
        supplied
    } else if latest > 0 {
        latest
    } else {
        0
    }
}

/// The position of the snapshot that a reconciliation of `pc` reads: that of
/// the channel it is bound to or, for an unbound record, the only live
/// channel; -1 where there is none.
pub open spec fn target_index(pc: PeggedChannel, chs: Seq<ChannelSnapshot>) -> int {
    match pc.channel_id {
        Some(id) => channel_index(chs, id@),
        None => if chs.len() == 1 {
            0
        } else {
            -1
        },
    }
}

/// The native balances `(receiver, provider)` that snapshot `s` gives a
/// party playing `role`.
pub open spec fn split_for(role: Role, s: ChannelSnapshot) -> (int, int) {
    let ours = our_side(s);
    let theirs = s.capacity_sats - ours;
    match role {
        Role::StableReceiver => (ours, theirs),
        Role::StableProvider => (theirs, ours),
    }
}

/// The native balances `(receiver, provider)` that snapshot `s` gives a
/// party playing `role`, where the snapshot credits the local side no more
/// than the channel holds.
pub fn split_snapshot(role: Role, s: &ChannelSnapshot) -> (r: Option<(Sats, Sats)>)
    ensures
        our_side(*s) <= s.capacity_sats ==> r == Some(
            (split_for(role, *s).0 as Sats, split_for(role, *s).1 as Sats),
        ),
        our_side(*s) > s.capacity_sats ==> r is None,
        r matches Some((rn, pn)) ==> rn + pn == s.capacity_sats,
{
    let reserve: Sats = match s.unspendable_reserve_sats {
        Some(v) => v,
        None => 0,
    };
    let spendable: Sats = s.outbound_capacity_msat / 1000;
    if reserve > s.capacity_sats || spendable > s.capacity_sats - reserve {
        return None;
    }
    let ours: Sats = spendable + reserve;
    let theirs: Sats = s.capacity_sats - ours;
    match role {
        Role::StableReceiver => Some((ours, theirs)),
        Role::StableProvider => Some((theirs, ours)),
    }
}

/// `pc` after a successful reconciliation against `s` at `rate` at time `now`.
pub open spec fn reconciled(pc: PeggedChannel, s: ChannelSnapshot, rate: int, now: u64) -> PeggedChannel {
    let (rn, pn) = split_for(pc.role, s);
    PeggedChannel {
        channel_id: Some(s.channel_id),
        capacity_native: s.capacity_sats,
        receiver_native: rn as Sats,
        receiver_fiat: fiat_of(rn, rate) as Cents,
        provider_native: pn as Sats,
        provider_fiat: fiat_of(pn, rate) as Cents,
        latest_rate: rate as CentsPerBtc,
        last_reconciled_at: Some(now),
        ..pc
    }
}

/// Recomputes both parties' balances of `pc` from the live channel snapshot
/// and the rate (the record's last rate where `rate` is not positive).
///
/// An unbound record adopts the channel when exactly one is live. On any
/// error the record is left as it was.
pub fn update_balances(
    pc: &mut PeggedChannel,
    channels: &Vec<ChannelSnapshot>,
    rate: CentsPerBtc,
    now: u64,
) -> (r: Result<(), PegError>)
    ensures
        ({
            let rate_used = effective_rate(rate as int, old(pc).latest_rate as int);
            let i = target_index(*old(pc), channels@);
            &&& rate_used <= 0 ==> r == Err::<(), PegError>(PegError::RateUnavailable)
            &&& rate_used > 0 && i < 0 ==> r == Err::<(), PegError>(PegError::ChannelNotFound)
            &&& rate_used > 0 && i >= 0 && our_side(channels@[i]) > channels@[i].capacity_sats
                ==> r == Err::<(), PegError>(PegError::InconsistentSnapshot)
            &&& rate_used > 0 && i >= 0 && our_side(channels@[i]) <= channels@[i].capacity_sats
                ==> r == Ok::<(), PegError>(()) && *final(pc) == reconciled(
                *old(pc),
                channels@[i],
                rate_used,
                now,
            )
        }),
        r is Err ==> *final(pc) == *old(pc),
        old(pc).channel_id matches Some(id) ==> final(pc).channel_id matches Some(now_id) && now_id@
            == id@,
        r is Ok ==> final(pc).receiver_native + final(pc).provider_native
            == final(pc).capacity_native,
        r is Ok ==> final(pc).wf(),
        old(pc).wf() ==> final(pc).wf(),
{
    let rate_used: CentsPerBtc = if rate > 0 {
        rate
    } else if pc.latest_rate > 0 {
        pc.latest_rate
    } else {
        return Err(PegError::RateUnavailable);
    };
    let idx: usize = match pc.channel_id {
        Some(id) => match find_channel(channels, &id) {
            Some(i) => i,
            None => {
                return Err(PegError::ChannelNotFound);
            },
        },
        None => {
            if channels.len() == 1 {
                0
            } else {
                return Err(PegError::ChannelNotFound);
            }
        },
    };
    let s = channels[idx];
    let (receiver_native, provider_native) = match split_snapshot(pc.role, &s) {
        Some(split) => split,
        None => {
            return Err(PegError::InconsistentSnapshot);
        },
    };
    let receiver_fiat = match to_fiat(receiver_native, rate_used) {
        Ok(v) => v,
        Err(e) => {
            return Err(e);
        },
    };
    let provider_fiat = match to_fiat(provider_native, rate_used) {
        Ok(v) => v,
        Err(e) => {
            return Err(e);
        },
    };
    pc.channel_id = Some(s.channel_id);
    pc.capacity_native = s.capacity_sats;
    pc.receiver_native = receiver_native;
    pc.receiver_fiat = receiver_fiat;
    pc.provider_native = provider_native;
    pc.provider_fiat = provider_fiat;
    pc.latest_rate = rate_used;
    pc.last_reconciled_at = Some(now);
    Ok(())
}

} // verus!
