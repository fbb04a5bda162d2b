use vstd::prelude::*;

use crate::channel::{
    channel_index, find_channel, same_bytes, ChannelSnapshot, NodeId, PeggedChannel,
};
use crate::error::PegError;
use crate::money::{to_msat, Msats, Sats, MSATS_PER_SAT};

verus! {

/// A corrective payment that passed every check and may be handed to the
/// runtime's spontaneous-payment primitive.
#[derive(Clone, Copy, Debug, PartialEq, Eq)]
pub struct PaymentOrder {
    pub amount_msat: Msats,
    pub destination: NodeId,
}

/// The outcome of checking a payment of `amount` for `pc` against the live
/// channels, each failure in its turn.
pub open spec fn payment_check(amount: Msats, pc: PeggedChannel, chs: Seq<ChannelSnapshot>) -> Result<
    PaymentOrder,
    PegError,
> {
    if amount == 0 {
        Err(PegError::ZeroAmountPayment)
    } else {
        match pc.channel_id {
            None => Err(PegError::ChannelNotFound),
            Some(id) => {
                let i = channel_index(chs, id@);
                if i < 0 {
                    Err(PegError::ChannelNotFound)
                } else if !chs[i].is_ready {
                    Err(PegError::ChannelNotReady)
                } else if chs[i].outbound_capacity_msat < amount {
                    Err(
                        PegError::InsufficientCapacity {
                            outbound_msat: chs[i].outbound_capacity_msat,
                            amount_msat: amount,
                        },
                    )
                } else if chs[i].counterparty@ != pc.counterparty@ {
                    Err(PegError::CounterpartyMismatch)
                } else {
                    Ok(PaymentOrder { amount_msat: amount, destination: pc.counterparty })
                }
            },
        }
    }
}

/// Checks that a corrective payment of `amount` may be sent for `pc`; a zero
/// amount is refused before anything else is looked at.
pub fn check_payment(amount: Msats, pc: &PeggedChannel, channels: &Vec<ChannelSnapshot>) -> (r:
    Result<PaymentOrder, PegError>)
    ensures
        r == payment_check(amount, *pc, channels@),
        amount == 0 ==> r == Err::<PaymentOrder, PegError>(PegError::ZeroAmountPayment),
        r matches Ok(o) ==> o.amount_msat == amount && o.amount_msat > 0 && o.destination
            == pc.counterparty,
{
    if amount == 0 {
        return Err(PegError::ZeroAmountPayment);
    }
    let id = match pc.channel_id {
        Some(id) => id,
        None => {
            return Err(PegError::ChannelNotFound);
        },
    };
    let i = match find_channel(channels, &id) {
        Some(i) => i,
        None => {
            return Err(PegError::ChannelNotFound);
        },
    };
    let s = &channels[i];
    if !s.is_ready {
        return Err(PegError::ChannelNotReady);
    }
    if s.outbound_capacity_msat < amount {
        return Err(
            PegError::InsufficientCapacity {
                outbound_msat: s.outbound_capacity_msat,
                amount_msat: amount,
            },
        );
    }
    if !same_bytes(&s.counterparty.bytes, &pc.counterparty.bytes) {
        return Err(PegError::CounterpartyMismatch);
    }
    Ok(PaymentOrder { amount_msat: amount, destination: pc.counterparty })
}

/// Records what the runtime answered to a payment order: an accepted payment
/// marks the record, a refused one is reported with the runtime's reason and
/// leaves the record as it was.
pub fn record_payment_result(pc: &mut PeggedChannel, sent: Result<(), String>) -> (r: Result<
    (),
    PegError,
>)
    ensures
        sent is Ok ==> r is Ok && *final(pc) == (PeggedChannel { payment_made: true, ..*old(pc) }),
        sent matches Err(reason) ==> r == Err::<(), PegError>(PegError::PaymentSendFailed(reason))
            && *final(pc) == *old(pc),
        old(pc).wf() ==> final(pc).wf(),
{
    match sent {
        Ok(()) => {
            pc.payment_made = true;
            Ok(())
        },
        Err(reason) => Err(PegError::PaymentSendFailed(reason)),
    }
}

/// The amount pushed to the peer when a channel of `channel_sats` is opened:
/// half the channel value (rounded down to a satoshi), in millisatoshis.
pub fn open_push_msat(channel_sats: Sats) -> (r: Result<Msats, PegError>)
    ensures
        (channel_sats / 2) * MSATS_PER_SAT <= u64::MAX ==> r == Ok::<Msats, PegError>(
            ((channel_sats / 2) * MSATS_PER_SAT) as Msats,
        ),
        (channel_sats / 2) * MSATS_PER_SAT > u64::MAX ==> r == Err::<Msats, PegError>(
            PegError::AmountOutOfRange,
        ),
{
    to_msat(channel_sats / 2)
}

} // verus!
