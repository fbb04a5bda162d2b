use vstd::prelude::*;

use crate::channel::{
    channel_index, find_channel, is_bound_to, our_side, same_bytes, ChannelId, ChannelSnapshot, NodeId,
    PeggedChannel, Role,
};
use crate::error::PegError;
use crate::money::{fiat_of, sats_of, to_fiat, to_native_subunit, Cents, CentsPerBtc, Sats};
use crate::reconcile::{split_for, split_snapshot};

verus! {

#[verifier::external_type_specification]
#[verifier::external_body]
pub struct ExFromHexError(hex::FromHexError);

/// The value of a hexadecimal digit of either case, or -1 for any other
/// character.
pub open spec fn hex_digit_value(c: char) -> int {
    let v = c as u32;
    if 48 <= v <= 57 {
        v - 48
    } else if 97 <= v <= 102 {
        v - 87
    } else if 65 <= v <= 70 {
        v - 55
    } else {
        -1
    }
}

/// An even number of hexadecimal digits.
pub open spec fn is_hex_text(s: Seq<char>) -> bool {
    &&& s.len() % 2 == 0
    &&& forall|i: int| 0 <= i < s.len() ==> hex_digit_value(#[trigger] s[i]) >= 0
}

/// The bytes that hexadecimal text spells, two digits to a byte, high
/// digit first.
pub open spec fn hex_decoded(s: Seq<char>) -> Seq<u8> {
    Seq::new(
        s.len() / 2,
        |i: int| (hex_digit_value(s[2 * i]) * 16 + hex_digit_value(s[2 * i + 1])) as u8,
    )
}

/// The lowercase hexadecimal digits.
pub open spec fn lower_hex_digits() -> Seq<char> {
    seq!['0', '1', '2', '3', '4', '5', '6', '7', '8', '9', 'a', 'b', 'c', 'd', 'e', 'f']
}

/// Lowercase hexadecimal text for `b`, two digits to a byte, high digit
/// first.
pub open spec fn hex_encoded(b: Seq<u8>) -> Seq<char> {
    Seq::new(
        2 * b.len(),
        |i: int|
            if i % 2 == 0 {
                lower_hex_digits()[b[i / 2] as int / 16]
            } else {
                lower_hex_digits()[b[i / 2] as int % 16]
            },
    )
}

/// Relies on `hex::decode`: it accepts exactly an even number of hex digits
/// of either case and yields one byte per pair, high digit first.
#[verifier::external_body]
fn decode_hex(text: &str) -> (r: Result<Vec<u8>, hex::FromHexError>)
    ensures
        r is Ok == is_hex_text(text@),
        r matches Ok(b) ==> b@ == hex_decoded(text@),
{
    hex::decode(text)
}

/// Relies on `hex::encode`: two lowercase hex digits per byte, high digit
/// first.
#[verifier::external_body]
fn encode_hex(bytes: &[u8]) -> (r: String)
    ensures
        r@ == hex_encoded(bytes@),
{
    hex::encode(bytes)
}

/// Copies exactly `N` bytes into an array.
fn to_array<const N: usize>(b: &Vec<u8>) -> (r: [u8; N])
    requires
        b@.len() == N,
    ensures
        r@ == b@,
{
    let mut a = [0u8; N];
    let mut i: usize = 0;
    while i < N
        invariant
            0 <= i <= N,
            a@.len() == N,
            b@.len() == N,
            forall|j: int| 0 <= j < i ==> a@[j] == b@[j],
        decreases N - i,
    {
        a[i] = b[i];
        i = i + 1;
    }
    assert(a@ =~= b@);
    a
}

/// Parses a channel id written as 64 hex digits.
pub fn parse_channel_id(text: &str) -> (r: Result<ChannelId, PegError>)
    ensures
        r is Ok == (is_hex_text(text@) && text@.len() == 64),
        r matches Ok(id) ==> id@ == hex_decoded(text@),
        r matches Err(e) ==> e == PegError::ParseError,
{
    match decode_hex(text) {
        Ok(b) => {
            if b.len() != 32 {
                return Err(PegError::ParseError);
            }
            Ok(ChannelId { bytes: to_array(&b) })
        },
        Err(_) => Err(PegError::ParseError),
    }
}

/// Parses a node identity written as 66 hex digits.
pub fn parse_node_id(text: &str) -> (r: Result<NodeId, PegError>)
    ensures
        r is Ok == (is_hex_text(text@) && text@.len() == 66),
        r matches Ok(id) ==> id@ == hex_decoded(text@),
        r matches Err(e) ==> e == PegError::ParseError,
{
    match decode_hex(text) {
        Ok(b) => {
            if b.len() != 33 {
                return Err(PegError::ParseError);
            }
            Ok(NodeId { bytes: to_array(&b) })
        },
        Err(_) => Err(PegError::ParseError),
    }
}

/// A channel id as 64 lowercase hex digits.
pub fn channel_id_hex(id: &ChannelId) -> (r: String)
    ensures
        r@ == hex_encoded(id@),
        r@.len() == 64,
{
    encode_hex(id.bytes.as_slice())
}

/// The native value of the peg target at designation time: the target at
/// `rate`, or zero where the rate is unknown or the value is not a native
/// amount.
pub open spec fn designated_native(expected_fiat: Cents, rate: CentsPerBtc) -> Sats {
    if rate > 0 && expected_fiat >= 0 && sats_of(expected_fiat as int, rate as int) <= u64::MAX {
        sats_of(expected_fiat as int, rate as int) as Sats
    } else {
        0
    }
}

/// A fresh, not yet reconciled record pegging channel `s` at
/// `expected_fiat`. Where the snapshot credits the local side no more than
/// the channel holds, the record holds the channel's split by role (its two
/// sides summing to the channel value), valued at `rate` where that is
/// positive; otherwise its balances are zero.
pub open spec fn designated(
    s: ChannelSnapshot,
    role: Role,
    expected_fiat: Cents,
    expected_native: Sats,
    rate: CentsPerBtc,
) -> PeggedChannel {
    let consistent = our_side(s) <= s.capacity_sats;
    let (rn, pn) = split_for(role, s);
    PeggedChannel {
        channel_id: Some(s.channel_id),
        counterparty: s.counterparty,
        role,
        expected_fiat,
        expected_native,
        capacity_native: if consistent {
            s.capacity_sats
        } else {
            0
        },
        receiver_native: if consistent {
            rn as Sats
        } else {
            0
        },
        receiver_fiat: if consistent && rate > 0 {
            fiat_of(rn, rate as int) as Cents
        } else {
            0
        },
        provider_native: if consistent {
            pn as Sats
        } else {
            0
        },
        provider_fiat: if consistent && rate > 0 {
            fiat_of(pn, rate as int) as Cents
        } else {
            0
        },
        latest_rate: if rate > 0 {
            rate
        } else {
            0
        },
        risk_level: 0,
        payment_made: false,
        last_reconciled_at: None,
    }
}

/// Pegs the live channel `channel_id` at `expected_fiat`, the local party
/// playing `role`; the counterparty is taken from the channel.
pub fn designate(
    channel_id: &ChannelId,
    role: Role,
    expected_fiat: Cents,
    channels: &Vec<ChannelSnapshot>,
    rate: CentsPerBtc,
) -> (r: Result<PeggedChannel, PegError>)
    ensures
        ({
            let i = channel_index(channels@, channel_id@);
            &&& i < 0 ==> r == Err::<PeggedChannel, PegError>(PegError::ChannelNotFound)
            &&& i >= 0 ==> r == Ok::<PeggedChannel, PegError>(
                designated(
                    channels@[i],
                    role,
                    expected_fiat,
                    designated_native(expected_fiat, rate),
                    rate,
                ),
            )
        }),
        r matches Ok(pc) ==> pc.wf(),
        r matches Ok(pc) ==> ({
            let s = channels@[channel_index(channels@, channel_id@)];
            our_side(s) <= s.capacity_sats ==> pc.receiver_native + pc.provider_native
                == s.capacity_sats
        }),
{
    let i = match find_channel(channels, channel_id) {
        Some(i) => i,
        None => {
            return Err(PegError::ChannelNotFound);
        },
    };
    let expected_native: Sats = match to_native_subunit(expected_fiat, rate) {
        Ok(n) => n,
        Err(_) => 0,
    };
    Ok(new_record(&channels[i], role, expected_fiat, expected_native, rate))
}

fn new_record(
    s: &ChannelSnapshot,
    role: Role,
    expected_fiat: Cents,
    expected_native: Sats,
    rate: CentsPerBtc,
) -> (r: PeggedChannel)
    ensures
        r == designated(*s, role, expected_fiat, expected_native, rate),
{
    let (capacity, rn, rf, pn, pf): (Sats, Sats, Cents, Sats, Cents) = match split_snapshot(
        role,
        s,
    ) {
        Some((rn, pn)) => {
            let rf = match to_fiat(rn, rate) {
                Ok(v) => v,
                Err(_) => 0,
            };
            let pf = match to_fiat(pn, rate) {
                Ok(v) => v,
                Err(_) => 0,
            };
            (s.capacity_sats, rn, rf, pn, pf)
        },
        None => (0, 0, 0, 0, 0),
    };
    PeggedChannel {
        channel_id: Some(s.channel_id),
        counterparty: s.counterparty,
        role,
        expected_fiat,
        expected_native,
        capacity_native: capacity,
        receiver_native: rn,
        receiver_fiat: rf,
        provider_native: pn,
        provider_fiat: pf,
        latest_rate: if rate > 0 {
            rate
        } else {
            0
        },
        risk_level: 0,
        payment_made: false,
        last_reconciled_at: None,
    }
}

/// Adds `pc` to `records`, replacing the first record bound to the same
/// channel; the position it now holds.
pub fn upsert_record(records: &mut Vec<PeggedChannel>, pc: PeggedChannel) -> (k: usize)
    requires
        pc.channel_id is Some,
    ensures
        ({
            let id = pc.channel_id->Some_0@;
            ||| (k < old(records)@.len() && is_bound_to(old(records)@[k as int], id) && (forall|
                j: int,
            | 0 <= j < k ==> !is_bound_to(old(records)@[j], id)) && final(records)@ == old(
                records,
            )@.update(k as int, pc))
            ||| (k == old(records)@.len() && (forall|j: int|
                0 <= j < old(records)@.len() ==> !is_bound_to(old(records)@[j], id))
                && final(records)@ == old(records)@.push(pc))
        }),
{
    let id = match pc.channel_id {
        Some(id) => id,
        None => {
            return 0;
        },
    };
    let mut i: usize = 0;
    while i < records.len()
        invariant
            0 <= i <= records@.len(),
            records@ == old(records)@,
            pc.channel_id == Some(id),
            forall|j: int| 0 <= j < i ==> !is_bound_to(records@[j], id@),
        decreases records@.len() - i,
    {
        let bound = match records[i].channel_id {
            Some(c) => same_bytes(&c.bytes, &id.bytes),
            None => false,
        };
        if bound {
            records.set(i, pc);
            return i;
        }
        i = i + 1;
    }
    records.push(pc);
    i
}

/// Designates the channel whose id is spelled by `channel_id_text` as
/// pegged at `expected_fiat`, replacing an earlier designation of the same
/// channel; the record's position. On error the records are left as they
/// were.
pub fn designate_stable_channel(
    records: &mut Vec<PeggedChannel>,
    channel_id_text: &str,
    role: Role,
    expected_fiat: Cents,
    channels: &Vec<ChannelSnapshot>,
    rate: CentsPerBtc,
) -> (r: Result<usize, PegError>)
    ensures
        !(is_hex_text(channel_id_text@) && channel_id_text@.len() == 64) ==> r == Err::<
            usize,
            PegError,
        >(PegError::ParseError),
        is_hex_text(channel_id_text@) && channel_id_text@.len() == 64 && channel_index(
            channels@,
            hex_decoded(channel_id_text@),
        ) < 0 ==> r == Err::<usize, PegError>(PegError::ChannelNotFound),
        is_hex_text(channel_id_text@) && channel_id_text@.len() == 64 && channel_index(
            channels@,
            hex_decoded(channel_id_text@),
        ) >= 0 ==> r is Ok,
        r is Err ==> final(records)@ == old(records)@,
        r matches Ok(k) ==> ({
            let i = channel_index(channels@, hex_decoded(channel_id_text@));
            let pc = designated(
                channels@[i],
                role,
                expected_fiat,
                designated_native(expected_fiat, rate),
                rate,
            );
            &&& is_hex_text(channel_id_text@) && channel_id_text@.len() == 64 && i >= 0
            &&& k < final(records)@.len()
            &&& final(records)@[k as int] == pc
            &&& k <= old(records)@.len()
            &&& k < old(records)@.len() ==> is_bound_to(old(records)@[k as int], pc.channel_id->Some_0@)
                && final(records)@ == old(records)@.update(k as int, pc)
            &&& k == old(records)@.len() ==> (forall|j: int|
                0 <= j < old(records)@.len() ==> !is_bound_to(old(records)@[j], pc.channel_id->Some_0@))
                && final(records)@ == old(records)@.push(pc)
            &&& forall|j: int| 0 <= j < k ==> !is_bound_to(old(records)@[j], pc.channel_id->Some_0@)
        }),
{
    let id = match parse_channel_id(channel_id_text) {
        Ok(id) => id,
        Err(e) => {
            return Err(e);
        },
    };
    let pc = match designate(&id, role, expected_fiat, channels, rate) {
        Ok(pc) => pc,
        Err(e) => {
            return Err(e);
        },
    };
    let k = upsert_record(records, pc);
    Ok(k)
}

/// The position among `channels` of the channel whose id is spelled by
/// `text`, for closing it.
pub fn find_channel_to_close(channels: &Vec<ChannelSnapshot>, text: &str) -> (r: Result<
    usize,
    PegError,
>)
    ensures
        !(is_hex_text(text@) && text@.len() == 64) ==> r == Err::<usize, PegError>(
            PegError::ParseError,
        ),
        is_hex_text(text@) && text@.len() == 64 ==> {
            let i = channel_index(channels@, hex_decoded(text@));
            &&& i < 0 ==> r == Err::<usize, PegError>(PegError::ChannelNotFound)
            &&& i >= 0 ==> r == Ok::<usize, PegError>(i as usize)
        },
{
    let id = match parse_channel_id(text) {
        Ok(id) => id,
        Err(e) => {
            return Err(e);
        },
    };
    match find_channel(channels, &id) {
        Some(i) => Ok(i),
        None => Err(PegError::ChannelNotFound),
    }
}

/// What is kept of a designation across restarts: the channel (as hex), the
/// peg target and its native value at designation time.
#[derive(Clone, Debug, PartialEq, Eq)]
pub struct PersistedEntry {
    pub channel_id: String,
    pub expected_fiat: Cents,
    pub expected_native: Sats,
}

impl View for PersistedEntry {
    type V = (Seq<char>, Cents, Sats);

    open spec fn view(&self) -> (Seq<char>, Cents, Sats) {
        (self.channel_id@, self.expected_fiat, self.expected_native)
    }
}

/// The entry that keeps bound record `pc`.
pub open spec fn entry_of(pc: PeggedChannel) -> (Seq<char>, Cents, Sats) {
    (hex_encoded(pc.channel_id->Some_0@), pc.expected_fiat, pc.expected_native)
}

/// The entries that keep `recs`: one per bound record, in order.
pub open spec fn entries_of(recs: Seq<PeggedChannel>) -> Seq<(Seq<char>, Cents, Sats)>
    decreases recs.len(),
{
    if recs.len() == 0 {
        seq![]
    } else {
        let prefix = entries_of(recs.drop_last());
        if recs.last().channel_id is Some {
            prefix.push(entry_of(recs.last()))
        } else {
            prefix
        }
    }
}

/// The entries to persist for `records`: one per bound record, in order.
pub fn save_stable_channels(records: &Vec<PeggedChannel>) -> (r: Vec<PersistedEntry>)
    ensures
        r@.map_values(|e: PersistedEntry| e@) == entries_of(records@),
{
    let mut out: Vec<PersistedEntry> = Vec::new();
    let mut i: usize = 0;
    while i < records.len()
        invariant
            0 <= i <= records@.len(),
            out@.map_values(|e: PersistedEntry| e@) == entries_of(records@.take(i as int)),
        decreases records@.len() - i,
    {
        proof {
            assert(records@.take(i + 1).drop_last() == records@.take(i as int));
            assert(records@.take(i + 1).last() == records@[i as int]);
        }
        let pc = &records[i];
        match pc.channel_id {
            Some(id) => {
                let e = PersistedEntry {
                    channel_id: channel_id_hex(&id),
                    expected_fiat: pc.expected_fiat,
                    expected_native: pc.expected_native,
                };
                let ghost before = out@;
                out.push(e);
                proof {
                    assert(out@.map_values(|e: PersistedEntry| e@) =~= before.map_values(
                        |e: PersistedEntry| e@,
                    ).push(e@));
                }
            },
            None => {},
        }
        i = i + 1;
    }
    assert(records@.take(records@.len() as int) == records@);
    out
}

/// The record that entry `e` restores, where its channel is live.
pub open spec fn restored(
    e: (Seq<char>, Cents, Sats),
    role: Role,
    chs: Seq<ChannelSnapshot>,
    rate: CentsPerBtc,
) -> Option<PeggedChannel> {
    let i = channel_index(chs, hex_decoded(e.0));
    if is_hex_text(e.0) && e.0.len() == 64 && i >= 0 {
        Some(designated(chs[i], role, e.1, e.2, rate))
    } else {
        None
    }
}

/// The records that `es` restores, in order; entries whose channel is not
/// live, or whose id does not parse, restore nothing.
pub open spec fn restored_all(
    es: Seq<(Seq<char>, Cents, Sats)>,
    role: Role,
    chs: Seq<ChannelSnapshot>,
    rate: CentsPerBtc,
) -> Seq<PeggedChannel>
    decreases es.len(),
{
    if es.len() == 0 {
        seq![]
    } else {
        let prefix = restored_all(es.drop_last(), role, chs, rate);
        match restored(es.last(), role, chs, rate) {
            Some(pc) => prefix.push(pc),
            None => prefix,
        }
    }
}

/// Rebinds persisted entries to the live channels; an entry whose channel is
/// not live is no error, it is simply not restored.
pub fn load_stable_channels(
    entries: &Vec<PersistedEntry>,
    role: Role,
    channels: &Vec<ChannelSnapshot>,
    rate: CentsPerBtc,
) -> (r: Vec<PeggedChannel>)
    ensures
        r@ == restored_all(entries@.map_values(|e: PersistedEntry| e@), role, channels@, rate),
{
    let ghost es = entries@.map_values(|e: PersistedEntry| e@);
    let mut out: Vec<PeggedChannel> = Vec::new();
    let mut i: usize = 0;
    while i < entries.len()
        invariant
            0 <= i <= entries@.len(),
            es == entries@.map_values(|e: PersistedEntry| e@),
            out@ == restored_all(es.take(i as int), role, channels@, rate),
        decreases entries@.len() - i,
    {
        proof {
            assert(es.take(i + 1).drop_last() == es.take(i as int));
            assert(es.take(i + 1).last() == entries@[i as int]@);
        }
        let e = &entries[i];
        match parse_channel_id(e.channel_id.as_str()) {
            Ok(id) => match find_channel(channels, &id) {
                Some(k) => {
                    out.push(new_record(&channels[k], role, e.expected_fiat, e.expected_native, rate));
                },
                None => {},
            },
            Err(_) => {},
        }
        i = i + 1;
    }
    assert(es.take(entries@.len() as int) == es);
    out
}

/// `recs` without the records bound to channel `id`, in order.
pub open spec fn without_channel(recs: Seq<PeggedChannel>, id: Seq<u8>) -> Seq<PeggedChannel>
    decreases recs.len(),
{
    if recs.len() == 0 {
        seq![]
    } else {
        let prefix = without_channel(recs.drop_last(), id);
        if is_bound_to(recs.last(), id) {
            prefix
        } else {
            prefix.push(recs.last())
        }
    }
}

/// Discards the records of a channel that closed, keeping the others in
/// order.
pub fn forget_channel(records: &mut Vec<PeggedChannel>, closed: &ChannelId)
    ensures
        final(records)@ == without_channel(old(records)@, closed@),
{
    let mut kept: Vec<PeggedChannel> = Vec::new();
    let mut i: usize = 0;
    while i < records.len()
        invariant
            0 <= i <= records@.len(),
            records@ == old(records)@,
            kept@ == without_channel(records@.take(i as int), closed@),
        decreases records@.len() - i,
    {
        proof {
            assert(records@.take(i + 1).drop_last() == records@.take(i as int));
            assert(records@.take(i + 1).last() == records@[i as int]);
        }
        let pc = records[i];
        let bound = match pc.channel_id {
            Some(c) => same_bytes(&c.bytes, &closed.bytes),
            None => false,
        };
        if !bound {
            kept.push(pc);
        }
        i = i + 1;
    }
    assert(records@.take(records@.len() as int) == records@);
    *records = kept;
}

/// A fresh record not yet bound to a channel: it adopts the only live
/// channel at its first reconciliation. Its native target is `expected_fiat`
/// at `rate`, or zero where the rate is unknown.
pub fn new_unbound_record(
    counterparty: NodeId,
    role: Role,
    expected_fiat: Cents,
    rate: CentsPerBtc,
) -> (r: PeggedChannel)
    ensures
        r == (PeggedChannel {
            channel_id: None,
            counterparty,
            role,
            expected_fiat,
            expected_native: designated_native(expected_fiat, rate),
            capacity_native: 0,
            receiver_native: 0,
            receiver_fiat: 0,
            provider_native: 0,
            provider_fiat: 0,
            latest_rate: if rate > 0 {
                rate
            } else {
                0
            },
            risk_level: 0,
            payment_made: false,
            last_reconciled_at: None,
        }),
        r.wf(),
{
    let expected_native: Sats = match to_native_subunit(expected_fiat, rate) {
        Ok(n) => n,
        Err(_) => 0,
    };
    PeggedChannel {
        channel_id: None,
        counterparty,
        role,
        expected_fiat,
        expected_native,
        capacity_native: 0,
        receiver_native: 0,
        receiver_fiat: 0,
        provider_native: 0,
        provider_fiat: 0,
        latest_rate: if rate > 0 {
            rate
        } else {
            0
        },
        risk_level: 0,
        payment_made: false,
        last_reconciled_at: None,
    }
}

} // verus!
