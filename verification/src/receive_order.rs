//! Putting acknowledged packets in the order in which the remote received them.
use crate::packet::{acked_packet, is_acked, received_before, same_rank, AckedPacket};
use crate::twcc::TwccSendRecord;
use std::cmp::Ordering;
use vstd::prelude::*;

verus! {

/// The packets of one rank, in the order in which they stand.
pub open spec fn of_rank(packets: Seq<AckedPacket>, rank: AckedPacket) -> Seq<AckedPacket> {
    packets.filter(|p: AckedPacket| same_rank(rank, p))
}

/// Whether no packet comes before one that stands ahead of it.
pub open spec fn in_receive_order(packets: Seq<AckedPacket>) -> bool {
    forall|i: int, j: int|
        0 <= i < j < packets.len() ==> !received_before(#[trigger] packets[j], #[trigger] packets[i])
}

/// Whether `sorted` holds `packets` in receive order, those of the same rank as they stood.
pub open spec fn is_receive_order(packets: Seq<AckedPacket>, sorted: Seq<AckedPacket>) -> bool {
    &&& in_receive_order(sorted)
    &&& forall|rank: AckedPacket| #[trigger] of_rank(sorted, rank) == of_rank(packets, rank)
}

/// The packets in receive order, those of the same rank as they stood.
pub open spec fn by_receive_time(packets: Seq<AckedPacket>) -> Seq<AckedPacket> {
    choose|sorted: Seq<AckedPacket>| is_receive_order(packets, sorted)
}

/// The packets that the records show as acknowledged, as the records stand.
pub open spec fn acked_packets(records: Seq<TwccSendRecord>) -> Seq<AckedPacket> {
    records.filter(|r: TwccSendRecord| is_acked(r)).map_values(|r: TwccSendRecord| acked_packet(r))
}

/// How many of the records are of packets that were not acknowledged.
pub open spec fn lost_packets(records: Seq<TwccSendRecord>) -> nat {
    records.filter(|r: TwccSendRecord| !is_acked(r)).len()
}

/// Every packet of a report is either acknowledged or lost.
pub proof fn law_acked_or_lost(records: Seq<TwccSendRecord>)
    ensures
        acked_packets(records).len() + lost_packets(records) == records.len(),
    decreases records.len(),
{
    reveal(Seq::filter);
    if records.len() > 0 {
        law_acked_or_lost(records.drop_last());
    }
}

/// Receive order is a strict weak order: it is irreflexive and transitive, and of two packets
/// exactly one comes first, or their ranks are the same. Packets of the same rank
/// compare alike with every other packet.
pub proof fn law_receive_order_is_total(a: AckedPacket, b: AckedPacket, c: AckedPacket)
    ensures
        !received_before(a, a),
        received_before(a, b) && received_before(b, c) ==> received_before(a, c),
        received_before(a, b) ==> !received_before(b, a) && !same_rank(a, b),
        received_before(a, b) || received_before(b, a) || same_rank(a, b),
        same_rank(a, b) ==> received_before(a, c) == received_before(b, c),
        same_rank(a, b) ==> received_before(c, a) == received_before(c, b),
{
}

/// What `of_rank` gives when one more packet is put at the end.
proof fn lemma_of_rank_push(packets: Seq<AckedPacket>, next: AckedPacket, rank: AckedPacket)
    ensures
        of_rank(packets.push(next), rank) == if same_rank(rank, next) {
            of_rank(packets, rank).push(next)
        } else {
            of_rank(packets, rank)
        },
{
    reveal(Seq::filter);
    assert(packets.push(next).drop_last() == packets);
}

/// A rank holds every packet of that rank, and nothing else.
proof fn lemma_of_rank_contains(packets: Seq<AckedPacket>, i: int)
    requires
        0 <= i < packets.len(),
    ensures
        of_rank(packets, packets[i]).len() > 0,
{
    let pred = |p: AckedPacket| same_rank(packets[i], p);
    packets.lemma_filter_contains(pred, i);
}

/// A rank that holds a packet at all is the rank of a packet in the sequence.
proof fn lemma_of_rank_witness(packets: Seq<AckedPacket>, rank: AckedPacket) -> (i: int)
    requires
        of_rank(packets, rank).len() > 0,
    ensures
        0 <= i < packets.len(),
        same_rank(rank, packets[i]),
    decreases packets.len(),
{
    reveal(Seq::filter);
    if same_rank(rank, packets.last()) {
        packets.len() - 1
    } else {
        lemma_of_rank_witness(packets.drop_last(), rank)
    }
}

/// There is one way only to put packets in receive order and keep those of the same rank as they
/// stood.
pub proof fn law_receive_order_is_unique(
    packets: Seq<AckedPacket>,
    a: Seq<AckedPacket>,
    b: Seq<AckedPacket>,
)
    requires
        is_receive_order(packets, a),
        is_receive_order(packets, b),
    ensures
        a == b,
{
    assert forall|rank: AckedPacket| #[trigger] of_rank(a, rank) == of_rank(b, rank) by {
        assert(of_rank(a, rank) == of_rank(packets, rank));
        assert(of_rank(b, rank) == of_rank(packets, rank));
    }
    lemma_same_ranks_same_order(a, b);
}

/// Two sequences in receive order that agree on every rank are the same.
proof fn lemma_same_ranks_same_order(a: Seq<AckedPacket>, b: Seq<AckedPacket>)
    requires
        in_receive_order(a),
        in_receive_order(b),
        forall|rank: AckedPacket| #[trigger] of_rank(a, rank) == of_rank(b, rank),
    ensures
        a == b,
    decreases a.len(),
{
    if a.len() == 0 {
        if b.len() > 0 {
            lemma_of_rank_contains(b, 0);
            assert(of_rank(a, b[0]) == of_rank(b, b[0]));
            let i = lemma_of_rank_witness(a, b[0]);
        }
        assert(a == b);
    } else {
        let x = a.last();
        lemma_of_rank_contains(a, a.len() - 1);
        assert(of_rank(a, x) == of_rank(b, x));
        let i = lemma_of_rank_witness(b, x);
        let y = b.last();
        lemma_of_rank_contains(b, b.len() - 1);
        assert(of_rank(a, y) == of_rank(b, y));
        let j = lemma_of_rank_witness(a, y);
        assert(same_rank(x, y)) by {
            if i < b.len() - 1 {
                assert(!received_before(b[b.len() - 1], b[i]));
            }
            if j < a.len() - 1 {
                assert(!received_before(a[a.len() - 1], a[j]));
            }
        }
        let a0 = a.drop_last();
        let b0 = b.drop_last();
        assert(a == a0.push(x));
        assert(b == b0.push(y));
        lemma_of_rank_push(a0, x, x);
        lemma_of_rank_push(b0, y, x);
        assert(of_rank(a, x).last() == x);
        assert(of_rank(b, x).last() == y);
        assert forall|rank: AckedPacket| #[trigger] of_rank(a0, rank) == of_rank(b0, rank) by {
            lemma_of_rank_push(a0, x, rank);
            lemma_of_rank_push(b0, x, rank);
            assert(of_rank(a, rank) == of_rank(b, rank));
            if same_rank(rank, x) {
                assert(of_rank(a0, rank) == of_rank(a, rank).drop_last());
                assert(of_rank(b0, rank) == of_rank(b, rank).drop_last());
            }
        }
        lemma_same_ranks_same_order(a0, b0);
    }
}

/// Inserting a packet behind all those that do not come after it keeps receive order.
proof fn lemma_insert(
    packets: Seq<AckedPacket>,
    sorted: Seq<AckedPacket>,
    next: AckedPacket,
    at: int,
)
    requires
        is_receive_order(packets, sorted),
        0 <= at <= sorted.len(),
        forall|k: int| at <= k < sorted.len() ==> received_before(next, #[trigger] sorted[k]),
        at > 0 ==> !received_before(next, sorted[at - 1]),
    ensures
        is_receive_order(packets.push(next), sorted.insert(at, next)),
{
    let result = sorted.insert(at, next);
    let head = sorted.take(at);
    let tail = sorted.skip(at);
    assert(sorted == head + tail);
    assert(result == head.push(next) + tail);
    assert(in_receive_order(result)) by {
        assert forall|i: int, j: int| 0 <= i < j < result.len() implies !received_before(
            #[trigger] result[j],
            #[trigger] result[i],
        ) by {
            let i0 = if i < at { i } else { i - 1 };
            let j0 = if j < at { j } else { j - 1 };
            if i != at && j != at {
                assert(!received_before(sorted[j0], sorted[i0]));
            } else if j == at {
                if i < at - 1 {
                    assert(!received_before(sorted[at - 1], sorted[i]));
                }
            } else {
                assert(received_before(next, sorted[j0]));
            }
        }
    }
    assert forall|rank: AckedPacket| #[trigger] of_rank(result, rank) == of_rank(
        packets.push(next),
        rank,
    ) by {
        let pred = |p: AckedPacket| same_rank(rank, p);
        Seq::filter_distributes_over_add(head, tail, pred);
        Seq::filter_distributes_over_add(head.push(next), tail, pred);
        lemma_of_rank_push(head, next, rank);
        lemma_of_rank_push(packets, next, rank);
        assert(of_rank(sorted, rank) == of_rank(packets, rank));
        if same_rank(rank, next) {
            assert(of_rank(tail, rank).len() == 0) by {
                if of_rank(tail, rank).len() > 0 {
                    let k = lemma_of_rank_witness(tail, rank);
                    assert(received_before(next, sorted[at + k]));
                }
            }
            assert(of_rank(result, rank) == of_rank(sorted, rank).push(next));
        }
    }
}

/// Every sequence of packets can be put in receive order, and `by_receive_time` does so: nothing is
/// lost and nothing is added.
pub proof fn law_by_receive_time_sorts(packets: Seq<AckedPacket>)
    ensures
        is_receive_order(packets, by_receive_time(packets)),
        by_receive_time(packets).to_multiset() == packets.to_multiset(),
        by_receive_time(packets).len() == packets.len(),
{
    let sorted = lemma_receive_order_exists(packets);
    let result = by_receive_time(packets);
    assert forall|p: AckedPacket| result.to_multiset().count(p) == packets.to_multiset().count(
        p,
    ) by {
        lemma_count_within_rank(result, p);
        lemma_count_within_rank(packets, p);
        assert(of_rank(result, p) == of_rank(packets, p));
    }
    assert(result.to_multiset() =~= packets.to_multiset());
    result.to_multiset_ensures();
    packets.to_multiset_ensures();
}

/// A receive order of the packets.
proof fn lemma_receive_order_exists(packets: Seq<AckedPacket>) -> (sorted: Seq<AckedPacket>)
    ensures
        is_receive_order(packets, sorted),
    decreases packets.len(),
{
    if packets.len() == 0 {
        packets
    } else {
        let sorted = lemma_receive_order_exists(packets.drop_last());
        let next = packets.last();
        let at = lemma_place(sorted, next, sorted.len() as int);
        lemma_insert(packets.drop_last(), sorted, next, at);
        assert(packets.drop_last().push(next) == packets);
        sorted.insert(at, next)
    }
}

/// The place of a packet among packets in receive order, given that it is not behind `from`.
proof fn lemma_place(sorted: Seq<AckedPacket>, next: AckedPacket, from: int) -> (at: int)
    requires
        0 <= from <= sorted.len(),
        forall|k: int| from <= k < sorted.len() ==> received_before(next, #[trigger] sorted[k]),
    ensures
        0 <= at <= sorted.len(),
        forall|k: int| at <= k < sorted.len() ==> received_before(next, #[trigger] sorted[k]),
        at > 0 ==> !received_before(next, sorted[at - 1]),
    decreases from,
{
    if from > 0 && received_before(next, sorted[from - 1]) {
        lemma_place(sorted, next, from - 1)
    } else {
        from
    }
}

/// A packet occurs as often among the packets of its rank as among all of them.
proof fn lemma_count_within_rank(packets: Seq<AckedPacket>, p: AckedPacket)
    ensures
        of_rank(packets, p).to_multiset().count(p) == packets.to_multiset().count(p),
    decreases packets.len(),
{
    broadcast use vstd::seq_lib::group_to_multiset_ensures;

    if packets.len() == 0 {
        reveal(Seq::filter);
    } else {
        let rest = packets.drop_last();
        let last = packets.last();
        lemma_count_within_rank(rest, p);
        assert(packets == rest.push(last));
        lemma_of_rank_push(rest, last, p);
    }
}

/// Whether receive order tells any two of the packets apart.
pub open spec fn distinct_ranks(packets: Seq<AckedPacket>) -> bool {
    forall|i: int, j: int|
        0 <= i < j < packets.len() ==> !same_rank(#[trigger] packets[i], #[trigger] packets[j])
}

/// The order in which a report tells of packets does not matter: two reports that tell of the same
/// packets, no two of them of the same rank, give the same receive order.
pub proof fn law_report_order_does_not_matter(a: Seq<AckedPacket>, b: Seq<AckedPacket>)
    requires
        distinct_ranks(a),
        distinct_ranks(b),
        forall|p: AckedPacket| #[trigger] a.contains(p) <==> b.contains(p),
    ensures
        by_receive_time(a) == by_receive_time(b),
{
    law_by_receive_time_sorts(a);
    law_by_receive_time_sorts(b);
    assert forall|rank: AckedPacket| #[trigger] of_rank(a, rank) == of_rank(b, rank) by {
        if of_rank(a, rank).len() > 0 {
            let i = lemma_of_rank_witness(a, rank);
            lemma_single_of_rank(a, i, rank);
            assert(a.contains(a[i]));
            let j = choose|j: int| 0 <= j < b.len() && b[j] == a[i];
            lemma_single_of_rank(b, j, rank);
        } else if of_rank(b, rank).len() > 0 {
            let j = lemma_of_rank_witness(b, rank);
            assert(b.contains(b[j]));
            assert(a.contains(b[j]));
            let i = choose|i: int| 0 <= i < a.len() && a[i] == b[j];
            lemma_single_of_rank(a, i, rank);
        } else {
            assert(of_rank(a, rank) =~= of_rank(b, rank));
        }
    }
    let sorted = by_receive_time(b);
    assert forall|rank: AckedPacket| #[trigger] of_rank(sorted, rank) == of_rank(a, rank) by {
        assert(of_rank(sorted, rank) == of_rank(b, rank));
        assert(of_rank(a, rank) == of_rank(b, rank));
    }
    law_receive_order_is_unique(a, by_receive_time(a), sorted);
}

/// Among packets of distinct ranks, one alone is of its rank.
proof fn lemma_single_of_rank(packets: Seq<AckedPacket>, i: int, rank: AckedPacket)
    requires
        distinct_ranks(packets),
        0 <= i < packets.len(),
        same_rank(rank, packets[i]),
    ensures
        of_rank(packets, rank) == seq![packets[i]],
    decreases packets.len(),
{
    let rest = packets.drop_last();
    let last = packets.last();
    assert(packets == rest.push(last));
    lemma_of_rank_push(rest, last, rank);
    if i < rest.len() {
        lemma_single_of_rank(rest, i, rank);
    } else if of_rank(rest, rank).len() > 0 {
        let j = lemma_of_rank_witness(rest, rank);
        assert(packets[j] == rest[j]);
    } else {
        assert(of_rank(rest, rank) =~= Seq::empty());
    }
}

/// Whether `a` comes before `b` in receive order.
fn comes_before(a: &AckedPacket, b: &AckedPacket) -> (before: bool)
    ensures
        before == received_before(*a, *b),
{
    match AckedPacket::order_by_receive_time(a, b) {
        Ordering::Less => true,
        _ => false,
    }
}

/// Puts packets in receive order, those of the same rank as they stood.
///
/// Reports mostly come in receive order already, so each packet looks for its place from the end.
pub fn sort_by_receive_time(packets: &mut Vec<AckedPacket>)
    ensures
        is_receive_order(old(packets)@, final(packets)@),
        final(packets)@ == by_receive_time(old(packets)@),
{
    let mut sorted: Vec<AckedPacket> = Vec::with_capacity(packets.len());
    let mut i: usize = 0;
    assert(packets@.take(0) == sorted@);
    while i < packets.len()
        invariant
            i <= packets.len(),
            packets@ == old(packets)@,
            is_receive_order(packets@.take(i as int), sorted@),
        decreases packets.len() - i,
    {
        let next = packets[i];
        let mut at: usize = sorted.len();
        while at > 0 && comes_before(&next, &sorted[at - 1])
            invariant
                at <= sorted.len(),
                forall|k: int| at <= k < sorted.len() ==> received_before(next, #[trigger] sorted[k]),
            decreases at,
        {
            at = at - 1;
        }
        proof {
            lemma_insert(packets@.take(i as int), sorted@, next, at as int);
            assert(packets@.take(i as int).push(next) == packets@.take(i + 1));
        }
        sorted.insert(at, next);
        i = i + 1;
    }
    proof {
        assert(packets@.take(i as int) == packets@);
        law_receive_order_is_unique(packets@, sorted@, by_receive_time(packets@));
    }
    *packets = sorted;
}

/// The packets that the records show as acknowledged, as the records stand.
pub fn collect_acked_packets(records: &[TwccSendRecord]) -> (packets: Vec<AckedPacket>)
    ensures
        packets@ == acked_packets(records@),
        packets@.len() + lost_packets(records@) == records@.len(),
{
    let mut packets: Vec<AckedPacket> = Vec::new();
    let mut i: usize = 0;
    proof {
        reveal(Seq::filter);
        assert(packets@ == acked_packets(records@.take(0)));
    }
    while i < records.len()
        invariant
            i <= records.len(),
            packets@ == acked_packets(records@.take(i as int)),
        decreases records.len() - i,
    {
        let ghost seen = records@.take(i + 1);
        proof {
            reveal(Seq::filter);
            assert(seen.drop_last() == records@.take(i as int));
        }
        if let Ok(packet) = AckedPacket::try_from(&records[i]) {
            packets.push(packet);
        }
        assert(packets@ == acked_packets(seen));
        i = i + 1;
    }
    proof {
        assert(records@.take(i as int) == records@);
        law_acked_or_lost(records@);
    }
    packets
}

/// The packets of a report come out by the time of reception, then by the time of sending, then by
/// number. None is lost and none is added, and those that all this does not tell apart stay as
/// they stood.
pub proof fn law_reports_are_put_in_order(
    packets: Seq<AckedPacket>,
    i: int,
    j: int,
    rank: AckedPacket,
)
    ensures
        ({
            let sorted = by_receive_time(packets);
            let alike = |p: AckedPacket|
                rank.remote_recv_time.nanos == p.remote_recv_time.nanos
                    && rank.local_send_time.nanos == p.local_send_time.nanos && rank.seq_no.0
                    == p.seq_no.0;
            &&& 0 <= i < j < sorted.len() ==> {
                let (a, b) = (sorted[i], sorted[j]);
                ||| a.remote_recv_time.nanos < b.remote_recv_time.nanos
                ||| a.remote_recv_time.nanos == b.remote_recv_time.nanos && a.local_send_time.nanos
                    < b.local_send_time.nanos
                ||| a.remote_recv_time.nanos == b.remote_recv_time.nanos && a.local_send_time.nanos
                    == b.local_send_time.nanos && a.seq_no.0 <= b.seq_no.0
            }
            &&& sorted.to_multiset() == packets.to_multiset()
            &&& sorted.filter(alike) == packets.filter(alike)
        }),
{
    law_by_receive_time_sorts(packets);
    let sorted = by_receive_time(packets);
    let alike = |p: AckedPacket|
        rank.remote_recv_time.nanos == p.remote_recv_time.nanos && rank.local_send_time.nanos
            == p.local_send_time.nanos && rank.seq_no.0 == p.seq_no.0;
    let same = |p: AckedPacket| same_rank(rank, p);
    assert(alike =~= same);
    assert(of_rank(sorted, rank) == of_rank(packets, rank));
}

/// One more record is one more acknowledged packet at the end, or one more lost one.
pub proof fn law_each_record_is_acked_or_lost(records: Seq<TwccSendRecord>, next: TwccSendRecord)
    ensures
        acked_packets(Seq::empty()).len() == 0,
        lost_packets(Seq::empty()) == 0,
        next.remote_recv_time is Some && next.local_recv_time is Some ==> {
            &&& acked_packets(records.push(next)) == acked_packets(records).push(acked_packet(next))
            &&& lost_packets(records.push(next)) == lost_packets(records)
        },
        next.remote_recv_time is None || next.local_recv_time is None ==> {
            &&& acked_packets(records.push(next)) == acked_packets(records)
            &&& lost_packets(records.push(next)) == lost_packets(records) + 1
        },
{
    reveal(Seq::filter);
    assert(records.push(next).drop_last() == records);
    law_acked_or_lost(Seq::empty());
    let acked = |r: TwccSendRecord| is_acked(r);
    let packet = |r: TwccSendRecord| acked_packet(r);
    assert(records.filter(acked).push(next).map_values(packet) =~= records.filter(
        acked,
    ).map_values(packet).push(acked_packet(next)));
}

} // verus!
