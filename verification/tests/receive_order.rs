use bwe::packet::AckedPacket;
use bwe::receive_order::{collect_acked_packets, sort_by_receive_time};
use bwe::twcc::{TwccSendRecord, TwccSeq};
use bwe::units::{DataSize, Duration, Instant};
use std::cmp::Ordering;

fn packet(seq: u64, sent: u128, received: u128, size: u64) -> AckedPacket {
    AckedPacket {
        seq_no: TwccSeq(seq),
        size: DataSize::bytes(size),
        local_send_time: Instant::from_nanos(sent),
        remote_recv_time: Instant::from_nanos(received),
        local_recv_time: Instant::from_nanos(1_000),
    }
}

fn record(seq: u64, local: Option<u128>, remote: Option<u128>) -> TwccSendRecord {
    TwccSendRecord {
        seq: TwccSeq(seq),
        cluster: None,
        size: 1_200,
        local_send_time: Instant::from_nanos(10 + seq as u128),
        local_recv_time: local.map(Instant::from_nanos),
        remote_recv_time: remote.map(Instant::from_nanos),
    }
}

#[test]
fn round_trip_is_from_sending_to_the_report() {
    assert_eq!(packet(1, 400, 5, 1).rtt(), Duration { nanos: 600 });
    assert_eq!(packet(1, 1_400, 5, 1).rtt(), Duration { nanos: 0 });
}

#[test]
fn receive_time_comes_first_then_send_time_then_sequence() {
    let a = packet(9, 9, 1, 1);
    let b = packet(8, 1, 2, 1);
    let c = packet(7, 2, 2, 1);
    let d = packet(8, 2, 2, 1);
    for (first, second) in [(a, b), (b, c), (c, d), (a, d)] {
        assert_eq!(AckedPacket::order_by_receive_time(&first, &second), Ordering::Less);
        assert_eq!(AckedPacket::order_by_receive_time(&second, &first), Ordering::Greater);
    }
    assert_eq!(AckedPacket::order_by_receive_time(&a, &a), Ordering::Equal);
}

#[test]
fn sorting_agrees_with_the_standard_library() {
    let mut packets = Vec::new();
    let mut x: u64 = 12345;
    for i in 0..300 {
        x = x.wrapping_mul(6364136223846793005).wrapping_add(1442695040888963407);
        packets.push(packet((x >> 40) % 3, ((x >> 44) % 3) as u128, ((x >> 50) % 5) as u128, i));
    }
    let mut expected = packets.clone();
    expected.sort_by(AckedPacket::order_by_receive_time);
    sort_by_receive_time(&mut packets);
    assert_eq!(packets, expected);
}

#[test]
fn packets_of_the_same_rank_stay_as_they_stand() {
    let mut packets = vec![packet(1, 1, 5, 30), packet(1, 1, 4, 10), packet(1, 1, 5, 20)];
    sort_by_receive_time(&mut packets);
    let sizes: Vec<u64> = packets.iter().map(|p| p.size.bytes).collect();
    assert_eq!(sizes, vec![10, 30, 20]);
}

#[test]
fn report_order_does_not_matter() {
    let mut forth = vec![packet(1, 1, 3, 1), packet(2, 2, 2, 2), packet(3, 3, 1, 3)];
    let mut back = forth.clone();
    back.reverse();
    sort_by_receive_time(&mut forth);
    sort_by_receive_time(&mut back);
    assert_eq!(forth, back);
}

#[test]
fn nothing_to_sort() {
    let mut packets: Vec<AckedPacket> = Vec::new();
    sort_by_receive_time(&mut packets);
    assert!(packets.is_empty());
}

#[test]
fn packet_needs_both_receive_times() {
    assert_eq!(AckedPacket::try_from(&record(1, None, None)), Err(()));
    assert_eq!(AckedPacket::try_from(&record(1, Some(3), None)), Err(()));
    assert_eq!(AckedPacket::try_from(&record(1, None, Some(4))), Err(()));
    assert_eq!(
        AckedPacket::try_from(&record(1, Some(3), Some(4))),
        Ok(AckedPacket {
            seq_no: TwccSeq(1),
            size: DataSize::bytes(1_200),
            local_send_time: Instant::from_nanos(11),
            remote_recv_time: Instant::from_nanos(4),
            local_recv_time: Instant::from_nanos(3),
        })
    );
}

#[test]
fn lost_packets_are_left_out() {
    let records = vec![
        record(1, Some(3), Some(9)),
        record(2, Some(3), None),
        record(3, Some(3), Some(7)),
    ];
    let packets = collect_acked_packets(&records);
    let seqs: Vec<u64> = packets.iter().map(|p| p.seq_no.0).collect();
    assert_eq!(seqs, vec![1, 3]);
}
