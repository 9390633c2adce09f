//! Acknowledged packets, and the order in which the remote received them.
use crate::twcc::{TwccSendRecord, TwccSeq};
use crate::units::{time_between, DataSize, Duration, Instant};
use std::cmp::Ordering;
use vstd::prelude::*;
use vstd::std_specs::convert::TryFromSpec;

verus! {

/// A packet that was sent and that the receiver has acknowledged in a TWCC report.
#[derive(Debug, Clone, Copy, PartialEq, Eq, Structural)]
pub struct AckedPacket {
    /// The TWCC sequence number.
    pub seq_no: TwccSeq,
    /// The size of the packet.
    pub size: DataSize,
    /// When the packet was sent.
    pub local_send_time: Instant,
    /// When the remote received the packet, on the remote's own clock.
    pub remote_recv_time: Instant,
    /// When the report on the packet came in.
    pub local_recv_time: Instant,
}

/// Whether `a` comes before `b` in receive order: by the time of reception, then by the time of
/// sending, then by sequence number.
pub open spec fn received_before(a: AckedPacket, b: AckedPacket) -> bool {
    ||| a.remote_recv_time.nanos < b.remote_recv_time.nanos
    ||| a.remote_recv_time == b.remote_recv_time && {
        ||| a.local_send_time.nanos < b.local_send_time.nanos
        ||| a.local_send_time == b.local_send_time && a.seq_no.0 < b.seq_no.0
    }
}

/// Whether receive order does not tell `a` and `b` apart.
pub open spec fn same_rank(a: AckedPacket, b: AckedPacket) -> bool {
    &&& a.remote_recv_time == b.remote_recv_time
    &&& a.local_send_time == b.local_send_time
    &&& a.seq_no == b.seq_no
}

/// Whether the remote's report acknowledges the packet.
pub open spec fn is_acked(record: TwccSendRecord) -> bool {
    record.remote_recv_time is Some && record.local_recv_time is Some
}

/// The acknowledged packet that a record tells of.
pub open spec fn acked_packet(record: TwccSendRecord) -> AckedPacket
    recommends
        is_acked(record),
{
    AckedPacket {
        seq_no: record.seq,
        size: DataSize { bytes: record.size as u64 },
        local_send_time: record.local_send_time,
        remote_recv_time: record.remote_recv_time->0,
        local_recv_time: record.local_recv_time->0,
    }
}

impl AckedPacket {
    /// The time from sending the packet to hearing that it arrived.
    pub fn rtt(&self) -> (span: Duration)
        ensures
            span == time_between(self.local_send_time, self.local_recv_time),
    {
        self.local_recv_time.duration_since(self.local_send_time)
    }

    /// Compares two packets by receive order.
    pub fn order_by_receive_time(lhs: &AckedPacket, rhs: &AckedPacket) -> (order: Ordering)
        ensures
            order == Ordering::Less <==> received_before(*lhs, *rhs),
            order == Ordering::Greater <==> received_before(*rhs, *lhs),
            order == Ordering::Equal <==> same_rank(*lhs, *rhs),
    {
        if lhs.remote_recv_time != rhs.remote_recv_time {
            if lhs.remote_recv_time.nanos < rhs.remote_recv_time.nanos {
                Ordering::Less
            } else {
                Ordering::Greater
            }
        } else if lhs.local_send_time != rhs.local_send_time {
            if lhs.local_send_time.nanos < rhs.local_send_time.nanos {
                Ordering::Less
            } else {
                Ordering::Greater
            }
        } else if lhs.seq_no.0 < rhs.seq_no.0 {
            Ordering::Less
        } else if lhs.seq_no.0 == rhs.seq_no.0 {
            Ordering::Equal
        } else {
            Ordering::Greater
        }
    }
}

impl TryFrom<&TwccSendRecord> for AckedPacket {
    type Error = ();

    /// The acknowledged packet that a record tells of, where its packet was acknowledged.
    fn try_from(record: &TwccSendRecord) -> (packet: Result<AckedPacket, ()>) {
        let remote_recv_time = match record.remote_recv_time {
            Some(at) => at,
            None => return Err(()),
        };
        let local_recv_time = match record.local_recv_time {
            Some(at) => at,
            None => return Err(()),
        };
        Ok(
            AckedPacket {
                seq_no: record.seq,
                size: DataSize { bytes: record.size as u64 },
                local_send_time: record.local_send_time,
                remote_recv_time,
                local_recv_time,
            },
        )
    }
}

impl vstd::std_specs::convert::TryFromSpecImpl<&TwccSendRecord> for AckedPacket {
    open spec fn obeys_try_from_spec() -> bool {
        true
    }

    open spec fn try_from_spec(record: &TwccSendRecord) -> Result<AckedPacket, ()> {
        if is_acked(*record) {
            Ok(acked_packet(*record))
        } else {
            Err(())
        }
    }
}

/// The packet that the remote received earlier comes first. Of two received at the same time it is
/// the one sent earlier, and of two sent at the same time too, the one with the lower number.
pub proof fn law_earlier_reception_comes_first(a: AckedPacket, b: AckedPacket)
    ensures
        a.remote_recv_time.nanos < b.remote_recv_time.nanos ==> received_before(a, b)
            && !received_before(b, a) && !same_rank(a, b),
        a.remote_recv_time.nanos == b.remote_recv_time.nanos && a.local_send_time.nanos
            < b.local_send_time.nanos ==> received_before(a, b) && !received_before(b, a)
            && !same_rank(a, b),
        a.remote_recv_time.nanos == b.remote_recv_time.nanos && a.local_send_time.nanos
            == b.local_send_time.nanos && a.seq_no.0 < b.seq_no.0 ==> received_before(a, b)
            && !received_before(b, a) && !same_rank(a, b),
        a.remote_recv_time.nanos == b.remote_recv_time.nanos && a.local_send_time.nanos
            == b.local_send_time.nanos && a.seq_no.0 == b.seq_no.0 ==> !received_before(a, b)
            && !received_before(b, a) && same_rank(a, b),
{
}

/// A packet is acknowledged where both the time of its reception and that of the report are known.
/// It has the number, the size and the times of its record.
pub proof fn law_acked_packet_keeps_the_record(record: TwccSendRecord, at: Instant, heard: Instant)
    ensures
        record.remote_recv_time is None ==> !is_acked(record),
        record.local_recv_time is None ==> !is_acked(record),
        record.remote_recv_time == Some(at) && record.local_recv_time == Some(heard) ==> {
            &&& is_acked(record)
            &&& acked_packet(record).seq_no == record.seq
            &&& acked_packet(record).size.bytes == record.size
            &&& acked_packet(record).local_send_time == record.local_send_time
            &&& acked_packet(record).remote_recv_time == at
            &&& acked_packet(record).local_recv_time == heard
        },
{
}

/// A record turns into a packet where it tells of both times, and does not where it lacks one.
pub proof fn law_record_turns_into_a_packet(record: TwccSendRecord, at: Instant, heard: Instant)
    ensures
        <AckedPacket as TryFromSpec<&TwccSendRecord>>::obeys_try_from_spec(),
        record.remote_recv_time is None ==> AckedPacket::try_from_spec(&record) is Err,
        record.local_recv_time is None ==> AckedPacket::try_from_spec(&record) is Err,
        record.remote_recv_time == Some(at) && record.local_recv_time == Some(heard)
            ==> AckedPacket::try_from_spec(&record) == Ok::<AckedPacket, ()>(
            AckedPacket {
                seq_no: record.seq,
                size: DataSize { bytes: record.size as u64 },
                local_send_time: record.local_send_time,
                remote_recv_time: at,
                local_recv_time: heard,
            },
        ),
{
}

} // verus!
