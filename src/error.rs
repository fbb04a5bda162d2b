use vstd::prelude::*;

verus! {

/// Every way in which a conversion, a reconciliation pass, a payment or a
/// designation can fail.
#[derive(Clone, Debug, PartialEq, Eq)]
pub enum PegError {
    /// An exchange rate of zero or below was handed to a conversion.
    InvalidRate,
    /// Neither a fresh rate nor a previously used one is known.
    RateUnavailable,
    /// The record's channel is not among the live channels.
    ChannelNotFound,
    /// The channel exists but is not ready to carry payments.
    ChannelNotReady,
    /// The channel cannot send the requested amount.
    InsufficientCapacity { outbound_msat: u64, amount_msat: u64 },
    /// The live channel's peer is not the record's counterparty.
    CounterpartyMismatch,
    /// A payment of nothing was requested.
    ZeroAmountPayment,
    /// The runtime refused to send a payment, with its reason.
    PaymentSendFailed(String),
    /// A channel id or node identity could not be parsed.
    ParseError,
    /// An amount is negative or does not fit its integer type.
    AmountOutOfRange,
    /// A channel snapshot credits us with more than the channel holds.
    InconsistentSnapshot,
}

} // verus!
