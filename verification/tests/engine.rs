use nex_prudp::fragmentation::{fragment_payload, reassemble, FragmentAssembler};
use nex_prudp::packet_dispatch_queue::{PacketDispatchQueue, PushOutcome};
use nex_prudp::reliable::{multi_ack_sequences, ReliableSubstream, RetransmitDecision};
use nex_prudp::rtt::{backoff_rto, RttEstimator};
use nex_prudp::timeout_manager::TimeoutManager;

#[test]
fn fragmentation_round_trips_over_many_mtus() {
    let payload: Vec<u8> = (0..65536u32).map(|i| (i * 7 + 3) as u8).collect();
    for mtu in [100usize, 137, 900, 1300, 2000] {
        let chunks = fragment_payload(&payload, mtu);
        for c in &chunks {
            assert!(c.len() <= mtu);
        }
        assert_eq!(reassemble(&chunks), payload);
    }
}

#[test]
fn fragmentation_boundary_sizes() {
    for len in [0usize, 1, 99, 100, 101] {
        let payload: Vec<u8> = (0..len).map(|i| i as u8).collect();
        let chunks = fragment_payload(&payload, 100);
        assert_eq!(reassemble(&chunks), payload);
        if len <= 100 {
            // A single-fragment message is one chunk; it travels as
            // fragment id 0 directly.
            assert_eq!(chunks.len(), 1);
        }
    }
}

#[test]
fn fragment_sizes_for_four_kilobytes() {
    // A 4,000-byte payload at MTU 1,300 cuts into chunks of
    // 1300, 1300, 1300 and 100 bytes, carried as fragments 1, 2, 3, 0.
    let payload = vec![0x5Au8; 4000];
    let chunks = fragment_payload(&payload, 1300);
    let sizes: Vec<usize> = chunks.iter().map(|c| c.len()).collect();
    assert_eq!(sizes, vec![1300, 1300, 1300, 100]);
    assert_eq!(reassemble(&chunks), payload);
}

#[test]
fn assembler_joins_contiguous_fragments() {
    let mut assembler = FragmentAssembler::new();
    assert_eq!(assembler.push_fragment(1, &[1, 2]).unwrap(), None);
    assert_eq!(assembler.push_fragment(2, &[3]).unwrap(), None);
    let done = assembler.push_fragment(0, &[4, 5]).unwrap().unwrap();
    assert_eq!(done, vec![1, 2, 3, 4, 5]);
    // The assembler is reset for the next chain.
    let single = assembler.push_fragment(0, &[9]).unwrap().unwrap();
    assert_eq!(single, vec![9]);
}

#[test]
fn assembler_aborts_on_gap() {
    let mut assembler = FragmentAssembler::new();
    assert_eq!(assembler.push_fragment(1, &[1]).unwrap(), None);
    assert!(assembler.push_fragment(3, &[2]).is_err());
}

#[test]
fn dispatch_queue_reorders_and_drains() {
    // Arrivals [3, 1, 2, 5, 4] starting at next expected 1 come out as
    // the payloads of 1, 2, 3, 4, 5.
    let mut q = PacketDispatchQueue::new(1, 64);
    let mut delivered: Vec<Vec<u8>> = Vec::new();
    for seq in [3u16, 1, 2, 5, 4] {
        match q.push(seq, vec![seq as u8]) {
            PushOutcome::Delivered(list) => delivered.extend(list),
            PushOutcome::Buffered => {},
            PushOutcome::Discarded => panic!("in-window arrival discarded"),
        }
    }
    assert_eq!(delivered, vec![vec![1], vec![2], vec![3], vec![4], vec![5]]);
}

#[test]
fn dispatch_queue_suppresses_duplicates_and_far_future() {
    let mut q = PacketDispatchQueue::new(10, 8);
    assert!(matches!(q.push(12, vec![12]), PushOutcome::Buffered));
    // The same early sequence again is a duplicate.
    assert!(matches!(q.push(12, vec![12]), PushOutcome::Discarded));
    // Before the next expected sequence: already delivered, discarded.
    assert!(matches!(q.push(9, vec![9]), PushOutcome::Discarded));
    // Past the window: discarded.
    assert!(matches!(q.push(100, vec![0]), PushOutcome::Discarded));
    match q.push(10, vec![10]) {
        PushOutcome::Delivered(list) => assert_eq!(list, vec![vec![10]]),
        _ => panic!("in-order arrival not delivered"),
    }
}

#[test]
fn dispatch_queue_wraps_sequence_numbers() {
    let mut q = PacketDispatchQueue::new(0xFFFE, 16);
    assert!(matches!(q.push(0xFFFF, vec![2]), PushOutcome::Buffered));
    assert!(matches!(q.push(0, vec![3]), PushOutcome::Buffered));
    match q.push(0xFFFE, vec![1]) {
        PushOutcome::Delivered(list) => {
            assert_eq!(list, vec![vec![1], vec![2], vec![3]]);
        },
        _ => panic!("wrap-around drain failed"),
    }
}

#[test]
fn rto_backoff_doubles_and_caps() {
    // After k consecutive losses the timeout is base * 2^k, capped.
    assert_eq!(backoff_rto(500, 0, 5000), 500);
    assert_eq!(backoff_rto(500, 1, 5000), 1000);
    assert_eq!(backoff_rto(500, 2, 5000), 2000);
    assert_eq!(backoff_rto(500, 3, 5000), 4000);
    assert_eq!(backoff_rto(500, 4, 5000), 5000);
    assert_eq!(backoff_rto(500, 60, 5000), 5000);
}

#[test]
fn rtt_estimator_follows_jacobson() {
    let mut e = RttEstimator::new(100, 5000);
    assert_eq!(e.rto(), 500);
    e.update(400);
    // First sample seeds srtt = 400, rttvar = 200: rto = 400 + 800.
    assert_eq!(e.rto(), 1200);
    e.update(400);
    // rttvar = (3*200 + 0)/4 = 150, srtt = 400: rto = 1000.
    assert_eq!(e.rto(), 1000);
    let mut fast = RttEstimator::new(100, 5000);
    fast.update(10);
    assert_eq!(fast.rto(), 100);
}

#[test]
fn timeout_manager_fires_in_deadline_order() {
    let mut tm = TimeoutManager::new();
    assert!(tm.schedule(1, 50));
    assert!(tm.schedule(2, 30));
    assert!(tm.schedule(3, 50));
    assert!(tm.schedule(4, 80));
    // A second schedule under a live id is refused.
    assert!(!tm.schedule(2, 10));
    tm.cancel(1);
    tm.cancel(1);
    let fired = tm.advance(60);
    // Ascending deadlines; the 50-tie keeps insertion order.
    assert_eq!(fired, vec![2, 3]);
    assert_eq!(tm.advance(60), Vec::<u64>::new());
    assert_eq!(tm.advance(100), vec![4]);
}

#[test]
fn reliable_sender_assigns_consecutive_sequences() {
    let mut sub = ReliableSubstream::new(5, 0, 64);
    let out = sub.send_payload(&[7u8; 4000], true, 1300, 1000, 250);
    let seqs: Vec<u16> = out.iter().map(|p| p.0).collect();
    let frags: Vec<u8> = out.iter().map(|p| p.1).collect();
    assert_eq!(seqs, vec![5, 6, 7, 8]);
    assert_eq!(frags, vec![1, 2, 3, 0]);
    // Acknowledge two; the rest stay pending.
    assert!(sub.ack(5).is_some());
    assert!(sub.ack(5).is_none());
    sub.ack_many(&[6, 8]);
    assert!(sub.ack(6).is_none());
    assert!(sub.ack(7).is_some());
}

#[test]
fn reliable_retransmission_backs_off_and_exhausts() {
    let mut sub = ReliableSubstream::new(0, 0, 64);
    let out = sub.send_payload(&[1u8; 10], true, 1300, 0, 500);
    assert_eq!(out.len(), 1);
    let mut expected_rto = 500u64;
    for _ in 0..5 {
        match sub.on_timer(0, 10, 5, 5000) {
            RetransmitDecision::Retransmit(bytes) => {
                assert_eq!(bytes, vec![1u8; 10]);
                expected_rto = (expected_rto * 2).min(5000);
            },
            _ => panic!("expected a retransmission"),
        }
    }
    // The sixth expiry exceeds max_retries = 5.
    assert!(matches!(sub.on_timer(0, 10, 5, 5000), RetransmitDecision::Exhausted));
    assert!(matches!(sub.on_timer(0, 10, 5, 5000), RetransmitDecision::NotPending));
}

#[test]
fn reliable_receiver_reassembles_across_reordering() {
    let mut tx = ReliableSubstream::new(1, 0, 64);
    let mut rx = ReliableSubstream::new(0, 1, 64);
    let payload: Vec<u8> = (0..4000u32).map(|i| i as u8).collect();
    let packets = tx.send_payload(&payload, true, 1300, 0, 500);
    // Deliver the fragments out of order: 2, 1, 4, 3.
    let order = [1usize, 0, 3, 2];
    let mut got: Vec<Vec<u8>> = Vec::new();
    for &i in &order {
        let (seq, frag, chunk) = &packets[i];
        got.extend(rx.receive_data(*seq, *frag, chunk).unwrap());
    }
    assert_eq!(got, vec![payload]);
}

#[test]
fn reliable_delivery_under_loss() {
    // 100 payloads of 1 KiB each, submitted reliably, with one packet in
    // five dropped by a deterministic adversary: every payload still
    // arrives, in order, within the retry budget.
    let mut tx = ReliableSubstream::new(1, 0, 256);
    let mut rx = ReliableSubstream::new(0, 1, 256);
    let mut lcg: u64 = 0x12345678;
    let mut drop_next = move || {
        lcg = lcg.wrapping_mul(6364136223846793005).wrapping_add(1442695040888963407);
        (lcg >> 33) % 5 == 0
    };
    let payloads: Vec<Vec<u8>> = (0..100u32).map(|i| vec![i as u8; 1024]).collect();
    let mut wire: Vec<(u16, u8, Vec<u8>)> = Vec::new();
    for p in &payloads {
        wire.extend(tx.send_payload(p, true, 1300, 0, 500));
    }
    let mut received: Vec<Vec<u8>> = Vec::new();
    let mut now = 0u64;
    for round in 0..6 {
        let mut still_pending: Vec<(u16, u8, Vec<u8>)> = Vec::new();
        for (seq, frag, chunk) in wire.drain(..) {
            if drop_next() {
                still_pending.push((seq, frag, chunk));
            } else {
                received.extend(rx.receive_data(seq, frag, &chunk).unwrap());
                assert!(tx.ack(seq).is_some() || round > 0);
            }
        }
        if still_pending.is_empty() {
            break;
        }
        now += 1000;
        for (seq, _frag, _chunk) in &still_pending {
            match tx.on_timer(*seq, now, 5, 5000) {
                RetransmitDecision::Retransmit(_) => {},
                RetransmitDecision::NotPending => {},
                RetransmitDecision::Exhausted => panic!("retry budget exhausted"),
            }
        }
        wire = still_pending;
    }
    assert_eq!(received, payloads);
}

#[test]
fn dispatch_queue_orders_any_arrival_permutation() {
    // A window of eight packets delivered in several adversarial orders,
    // with duplicates sprinkled in, always reaches the consumer in
    // sequence order, each payload exactly once.
    let orders: [[u16; 8]; 4] = [
        [8, 7, 6, 5, 4, 3, 2, 1],
        [1, 3, 5, 7, 2, 4, 6, 8],
        [4, 2, 8, 6, 1, 3, 5, 7],
        [2, 1, 4, 3, 6, 5, 8, 7],
    ];
    for order in orders {
        let mut q = PacketDispatchQueue::new(1, 32);
        let mut delivered: Vec<Vec<u8>> = Vec::new();
        for seq in order {
            match q.push(seq, vec![seq as u8]) {
                PushOutcome::Delivered(list) => delivered.extend(list),
                PushOutcome::Buffered => {},
                PushOutcome::Discarded => panic!("in-window arrival discarded"),
            }
            // A duplicate of the same arrival changes nothing.
            match q.push(seq, vec![seq as u8]) {
                PushOutcome::Delivered(_) => panic!("duplicate delivered"),
                _ => {},
            }
        }
        let expected: Vec<Vec<u8>> = (1..=8u16).map(|s| vec![s as u8]).collect();
        assert_eq!(delivered, expected);
    }
}

#[test]
fn multi_ack_expands_the_bitmap() {
    // Base 100 with bits 0, 1 and 3 set: 100 itself plus 101, 102 and 104.
    let seqs = multi_ack_sequences(100, 0b1011);
    assert_eq!(seqs, vec![100, 101, 102, 104]);
    // The expansion wraps with the sequence space.
    let seqs = multi_ack_sequences(0xFFFF, 0b11);
    assert_eq!(seqs, vec![0xFFFF, 0, 1]);
    let mut sub = ReliableSubstream::new(100, 0, 64);
    let sent = sub.send_payload(&[9u8; 5000], true, 1300, 0, 500);
    assert_eq!(sent.len(), 4);
    sub.ack_many(&multi_ack_sequences(100, 0b101));
    assert!(sub.ack(100).is_none());
    assert!(sub.ack(101).is_none());
    assert!(sub.ack(103).is_none());
    assert!(sub.ack(102).is_some());
}
