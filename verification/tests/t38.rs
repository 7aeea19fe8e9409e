//! Tests of the T.38 packet sequencer.

use sipcord_bridge::call::t38::{SequencedIfpBatch, T38IfpSequencer};

fn delivered(batch: &SequencedIfpBatch<'_>) -> Vec<(u16, u8, bool)> {
    batch
        .packets
        .iter()
        .map(|packet| (packet.seq_number, packet.data[0], packet.recovered))
        .collect()
}

#[test]
fn t38_first_packet_replays_retained_redundancy_oldest_first() {
    let mut sequencer = T38IfpSequencer::default();
    let redundant = vec![vec![9], vec![8]]; // Newest first: seq 9, then seq 8.
    let batch = sequencer.accept(10, &[10], &redundant);

    assert_eq!(
        delivered(&batch),
        vec![(8, 8, true), (9, 9, true), (10, 10, false)]
    );
    assert_eq!(batch.unrecovered_packets, 0);
    assert!(!batch.stale);
}

#[test]
fn t38_in_order_packet_does_not_replay_redundancy() {
    let mut sequencer = T38IfpSequencer::default();
    let first = sequencer.accept(10, &[10], &[]);
    assert_eq!(delivered(&first), vec![(10, 10, false)]);

    let redundant = vec![vec![10], vec![9]];
    let second = sequencer.accept(11, &[11], &redundant);
    assert_eq!(delivered(&second), vec![(11, 11, false)]);
    assert_eq!(second.unrecovered_packets, 0);
}

#[test]
fn t38_gap_is_recovered_oldest_first_before_primary() {
    let mut sequencer = T38IfpSequencer::default();
    sequencer.accept(10, &[10], &[]);

    let redundant = vec![vec![13], vec![12], vec![11]];
    let batch = sequencer.accept(14, &[14], &redundant);
    assert_eq!(
        delivered(&batch),
        vec![(11, 11, true), (12, 12, true), (13, 13, true), (14, 14, false)]
    );
    assert_eq!(batch.unrecovered_packets, 0);
}

#[test]
fn t38_partial_redundancy_reports_packets_it_cannot_recover() {
    let mut sequencer = T38IfpSequencer::default();
    sequencer.accept(9, &[9], &[]);

    let redundant = vec![vec![13], vec![12]];
    let batch = sequencer.accept(14, &[14], &redundant);
    assert_eq!(
        delivered(&batch),
        vec![(12, 12, true), (13, 13, true), (14, 14, false)]
    );
    assert_eq!(batch.unrecovered_packets, 2); // seq 10 and 11
}

#[test]
fn t38_stale_and_duplicate_packets_are_ignored_without_rewinding() {
    let mut sequencer = T38IfpSequencer::default();
    sequencer.accept(10, &[10], &[]);

    for stale_seq in [10, 9] {
        let batch = sequencer.accept(stale_seq, &[99], &[]);
        assert!(batch.stale);
        assert!(batch.packets.is_empty());
    }

    let next = sequencer.accept(11, &[11], &[]);
    assert_eq!(delivered(&next), vec![(11, 11, false)]);
}

#[test]
fn t38_recovery_handles_sequence_number_rollover() {
    let mut sequencer = T38IfpSequencer::default();
    sequencer.accept(u16::MAX - 1, &[254], &[]);

    // Primary seq 1 retains seq 0 first and seq 65535 second.
    let redundant = vec![vec![0], vec![255]];
    let batch = sequencer.accept(1, &[1], &redundant);
    assert_eq!(
        delivered(&batch),
        vec![(u16::MAX, 255, true), (0, 0, true), (1, 1, false)]
    );
    assert_eq!(batch.unrecovered_packets, 0);
}
