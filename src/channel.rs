use vstd::prelude::*;

use crate::money::{fiat_of, Cents, CentsPerBtc, Msats, Sats};

verus! {

/// The 32-byte identifier of a payment channel.
#[derive(Clone, Copy, Debug, PartialEq, Eq)]
pub struct ChannelId {
    pub bytes: [u8; 32],
}

/// The 33-byte public identity of a node.
#[derive(Clone, Copy, Debug, PartialEq, Eq)]
pub struct NodeId {
    pub bytes: [u8; 33],
}

impl View for ChannelId {
    type V = Seq<u8>;

    open spec fn view(&self) -> Seq<u8> {
        self.bytes@
    }
}

impl View for NodeId {
    type V = Seq<u8>;

    open spec fn view(&self) -> Seq<u8> {
        self.bytes@
    }
}

/// Which side of the channel the local party plays.
#[derive(Clone, Copy, Debug, PartialEq, Eq, Structural)]
pub enum Role {
    /// The party whose balance is held at a fiat value.
    StableReceiver,
    /// The party that absorbs the price movements.
    StableProvider,
}

/// What the payment-channel runtime reports of one live channel.
#[derive(Clone, Copy, Debug, PartialEq, Eq)]
pub struct ChannelSnapshot {
    pub channel_id: ChannelId,
    pub counterparty: NodeId,
    /// Total channel value.
    pub capacity_sats: Sats,
    /// What the local side can send now.
    pub outbound_capacity_msat: Msats,
    /// Balance locked as a punishment reserve, reclaimed by the local side
    /// on a unilateral close.
    pub unspendable_reserve_sats: Option<Sats>,
    pub is_ready: bool,
}

/// One channel held at a fiat value: its target, the current split of its
/// balance, and its risk state.
#[derive(Clone, Copy, Debug, PartialEq, Eq)]
pub struct PeggedChannel {
    /// The channel, once bound; bound once and never changed after.
    pub channel_id: Option<ChannelId>,
    pub counterparty: NodeId,
    pub role: Role,
    /// The peg target.
    pub expected_fiat: Cents,
    /// What the target was worth natively when it was set; informational.
    pub expected_native: Sats,
    /// Channel value seen by the last reconciliation.
    pub capacity_native: Sats,
    pub receiver_native: Sats,
    pub receiver_fiat: Cents,
    pub provider_native: Sats,
    pub provider_fiat: Cents,
    /// The rate of the last reconciliation; zero while unknown.
    pub latest_rate: CentsPerBtc,
    /// Accumulated risk; only a gate for corrective payments.
    pub risk_level: u64,
    /// Set once any corrective payment has been accepted for sending.
    pub payment_made: bool,
    /// When the balances were last reconciled, if ever.
    pub last_reconciled_at: Option<u64>,
}

/// The satoshis that belong to the local side of a channel: its spendable
/// balance plus the punishment reserve it would reclaim.
pub open spec fn our_side(s: ChannelSnapshot) -> int {
    s.outbound_capacity_msat / 1000 + match s.unspendable_reserve_sats {
        Some(r) => r as int,
        None => 0,
    }
}

/// `i` is the first position of channel `id` in `chs`.
pub open spec fn is_first_match(chs: Seq<ChannelSnapshot>, id: Seq<u8>, i: int) -> bool {
    &&& 0 <= i < chs.len()
    &&& chs[i].channel_id@ == id
    &&& forall|j: int| 0 <= j < i ==> chs[j].channel_id@ != id
}

/// The first position of channel `id` in `chs`, or -1 where it is absent.
pub open spec fn channel_index(chs: Seq<ChannelSnapshot>, id: Seq<u8>) -> int {
    if exists|i: int| is_first_match(chs, id, i) {
        choose|i: int| is_first_match(chs, id, i)
    } else {
        -1
    }
}

/// Record `pc` is bound to channel `id`.
pub open spec fn is_bound_to(pc: PeggedChannel, id: Seq<u8>) -> bool {
    pc.channel_id matches Some(c) && c@ == id
}

impl PeggedChannel {
    /// The record has been reconciled at least once.
    pub open spec fn is_reconciled(&self) -> bool {
        self.last_reconciled_at is Some
    }

    /// A reconciled record holds a bound channel and a positive rate, its two
    /// sides sum to the channel value, and each fiat balance is derived from
    /// its native balance at the latest rate.
    pub open spec fn wf(&self) -> bool {
        self.is_reconciled() ==> {
            &&& self.channel_id is Some
            &&& self.latest_rate > 0
            &&& self.receiver_native + self.provider_native == self.capacity_native
            &&& self.receiver_fiat == fiat_of(self.receiver_native as int, self.latest_rate as int)
            &&& self.provider_fiat == fiat_of(self.provider_native as int, self.latest_rate as int)
        }
    }
}

/// Equality of two byte arrays.
pub fn same_bytes<const N: usize>(a: &[u8; N], b: &[u8; N]) -> (r: bool)
    ensures
        r == (a@ == b@),
{
    let mut i: usize = 0;
    while i < N
        invariant
            0 <= i <= N,
            a@.len() == N,
            b@.len() == N,
            forall|j: int| 0 <= j < i ==> a@[j] == b@[j],
        decreases N - i,
    {
        if a[i] != b[i] {
            return false;
        }
        i = i + 1;
    }
    assert(a@ =~= b@);
    true
}

/// The first match is the only one.
pub proof fn lemma_first_match_unique(chs: Seq<ChannelSnapshot>, id: Seq<u8>, i: int)
    requires
        is_first_match(chs, id, i),
    ensures
        channel_index(chs, id) == i,
{
    let k = channel_index(chs, id);
    assert(is_first_match(chs, id, k));
    if k < i {
        assert(chs[k].channel_id@ != id);
    } else if i < k {
        assert(chs[i].channel_id@ != id);
    }
}

/// The position of channel `id` among `channels`, if it is there.
pub fn find_channel(channels: &Vec<ChannelSnapshot>, id: &ChannelId) -> (r: Option<usize>)
    ensures
        match r {
            Some(i) => i as int == channel_index(channels@, id@),
            None => channel_index(channels@, id@) == -1,
        },
        channel_index(channels@, id@) >= 0 ==> is_first_match(
            channels@,
            id@,
            channel_index(channels@, id@),
        ),
{
    let mut i: usize = 0;
    while i < channels.len()
        invariant
            0 <= i <= channels@.len(),
            forall|j: int| 0 <= j < i ==> channels@[j].channel_id@ != id@,
        decreases channels@.len() - i,
    {
        if same_bytes(&channels[i].channel_id.bytes, &id.bytes) {
            proof {
                assert(is_first_match(channels@, id@, i as int));
                lemma_first_match_unique(channels@, id@, i as int);
            }
            return Some(i);
        }
        i = i + 1;
    }
    assert(!exists|k: int| is_first_match(channels@, id@, k));
    None
}

/// Whether channel `id` is among `channels`.
pub fn channel_exists(channels: &Vec<ChannelSnapshot>, id: &ChannelId) -> (r: bool)
    ensures
        r == (exists|i: int| 0 <= i < channels@.len() && channels@[i].channel_id@ == id@),
{
    let found = find_channel(channels, id);
    proof {
        if found is None {
            assert forall|i: int| 0 <= i < channels@.len() implies channels@[i].channel_id@
                != id@ by {
                if channels@[i].channel_id@ == id@ {
                    lemma_some_match_has_first(channels@, id@, i);
                }
            }
        }
    }
    found.is_some()
}

/// Where channel `id` occurs somewhere, it has a first position.
pub proof fn lemma_some_match_has_first(chs: Seq<ChannelSnapshot>, id: Seq<u8>, i: int)
    requires
        0 <= i < chs.len(),
        chs[i].channel_id@ == id,
    ensures
        channel_index(chs, id) >= 0,
    decreases i,
{
    if forall|j: int| 0 <= j < i ==> chs[j].channel_id@ != id {
        assert(is_first_match(chs, id, i));
    } else {
        let j = choose|j: int| 0 <= j < i && chs[j].channel_id@ == id;
        lemma_some_match_has_first(chs, id, j);
    }
}

} // verus!
