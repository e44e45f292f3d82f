use std::collections::BTreeSet;

use workbench::load::LoadConfig;
use workbench::terrain::cache::TerrainAssignment;
use workbench::terrain::transfer::{TerrainTransfer, TerrainUpload, TransferError};

fn window(center_x: u32, center_z: u32) -> LoadConfig {
    LoadConfig::new(128, center_x, center_z, 2).unwrap()
}

fn uploads_for(assignments: &[TerrainAssignment]) -> Vec<TerrainUpload> {
    assignments
        .iter()
        .map(|a| TerrainUpload {
            slot: a.slot,
            region_id: a.region_id,
            global_region: a.global_region,
            tile_region_id: a.region_id,
            payload: vec![a.region_id as u8; 4],
            sha256: "00".to_string(),
        })
        .collect()
}

/// Reserves, submits, commits and publishes one window; returns the slots
/// of the published active mapping.
fn stream(transfer: &mut TerrainTransfer, config: LoadConfig, protected: &BTreeSet<u32>) -> BTreeSet<u32> {
    let report = transfer.reserve(config, protected).unwrap();
    let ticket = transfer
        .submit(report.transaction_id, uploads_for(&report.assignments))
        .unwrap();
    let submission = transfer.commit_submission(ticket);
    let publication = transfer.poll(submission.copy_fence).unwrap();
    publication.active.iter().map(|a| a.slot).collect()
}

#[test]
fn reserve_reports_the_plan_and_blocks_a_second_reservation() {
    let mut transfer = TerrainTransfer::new();
    let report = transfer.reserve(window(64, 64), &BTreeSet::new()).unwrap();
    assert_eq!(report.transaction_id, 1);
    assert_eq!(report.assignments.len(), 25);
    assert_eq!(report.counts.uploaded_region_count, 25);
    assert_eq!(report.counts.payload_bytes, 25 * 2178);
    assert!(transfer.is_busy());
    assert_eq!(transfer.reservation_id(), Some(1));
    assert_eq!(
        transfer.reserve(window(64, 64), &BTreeSet::new()).err(),
        Some(TransferError::Busy)
    );
    assert_eq!(transfer.next_transaction_id(), 2);
}

#[test]
fn reserve_refuses_a_window_beyond_the_active_capacity() {
    let mut transfer = TerrainTransfer::new();
    let wide = LoadConfig::new(128, 64, 64, 3).unwrap();
    assert!(matches!(
        transfer.reserve(wide, &BTreeSet::new()),
        Err(TransferError::Plan(_))
    ));
    assert!(!transfer.is_busy());
    assert_eq!(transfer.next_transaction_id(), 1);
}

#[test]
fn cancel_checks_the_transaction() {
    let mut transfer = TerrainTransfer::new();
    assert_eq!(transfer.cancel(1), Err(TransferError::NoReservation));
    let report = transfer.reserve(window(64, 64), &BTreeSet::new()).unwrap();
    assert_eq!(transfer.cancel(report.transaction_id + 1), Err(TransferError::ReservationMismatch));
    assert!(transfer.is_busy());
    assert_eq!(transfer.cancel(report.transaction_id), Ok(()));
    assert!(!transfer.is_busy());
    let again = transfer.reserve(window(64, 64), &BTreeSet::new()).unwrap();
    assert_eq!(again.transaction_id, 2);
}

#[test]
fn submit_rejects_wrong_uploads_and_consumes_the_reservation() {
    let mut transfer = TerrainTransfer::new();
    assert!(matches!(transfer.submit(1, Vec::new()), Err(TransferError::NoReservation)));

    let report = transfer.reserve(window(64, 64), &BTreeSet::new()).unwrap();
    assert!(matches!(
        transfer.submit(report.transaction_id + 5, uploads_for(&report.assignments)),
        Err(TransferError::ReservationMismatch)
    ));
    assert!(!transfer.is_busy());

    let report = transfer.reserve(window(64, 64), &BTreeSet::new()).unwrap();
    let mut short = uploads_for(&report.assignments);
    short.pop();
    assert!(matches!(
        transfer.submit(report.transaction_id, short),
        Err(TransferError::UploadCountMismatch)
    ));

    let report = transfer.reserve(window(64, 64), &BTreeSet::new()).unwrap();
    let mut misdirected = uploads_for(&report.assignments);
    misdirected[3].slot += 1;
    assert!(matches!(
        transfer.submit(report.transaction_id, misdirected),
        Err(TransferError::UploadAssignmentMismatch)
    ));

    let report = transfer.reserve(window(64, 64), &BTreeSet::new()).unwrap();
    let mut foreign_tile = uploads_for(&report.assignments);
    foreign_tile[0].tile_region_id += 1;
    assert!(matches!(
        transfer.submit(report.transaction_id, foreign_tile),
        Err(TransferError::UploadTileMismatch)
    ));
    assert!(!transfer.is_busy());
}

#[test]
fn a_copy_publishes_after_its_fence() {
    let mut transfer = TerrainTransfer::new();
    let report = transfer.reserve(window(64, 64), &BTreeSet::new()).unwrap();
    let ticket = transfer
        .submit(report.transaction_id, uploads_for(&report.assignments))
        .unwrap();
    assert!(ticket.released_slots().is_empty());
    assert_eq!(ticket.uploads().len(), 25);
    let submission = transfer.commit_submission(ticket);
    assert_eq!(submission.transaction_id, report.transaction_id);
    assert_eq!(submission.copy_fence, 1);
    assert_eq!(submission.copy_gate_fence, None);
    assert_eq!(submission.uploaded_sha256.len(), 64);
    assert_eq!(transfer.pending_id(), Some(report.transaction_id));
    assert_eq!(transfer.next_copy_fence(), 2);

    assert!(transfer.poll(0).is_none());
    assert!(transfer.is_busy());
    let publication = transfer.poll(1).unwrap();
    assert_eq!(publication.transaction_id, report.transaction_id);
    assert_eq!(publication.active.len(), 25);
    assert_eq!(publication.uploaded_slots.len(), 25);
    assert!(!transfer.is_busy());
    assert_eq!(transfer.cache_time(), 1);
    assert_eq!(transfer.last_completed_id(), Some(report.transaction_id));
    assert!(transfer.poll(5).is_none());
}

#[test]
fn the_upload_digest_depends_on_the_payloads() {
    let digest_of = |fill: u8| {
        let mut transfer = TerrainTransfer::new();
        let report = transfer.reserve(window(64, 64), &BTreeSet::new()).unwrap();
        let mut uploads = uploads_for(&report.assignments);
        for upload in &mut uploads {
            upload.payload = vec![fill; 8];
        }
        let ticket = transfer.submit(report.transaction_id, uploads).unwrap();
        transfer.commit_submission(ticket).uploaded_sha256
    };
    assert_eq!(digest_of(1), digest_of(1));
    assert_ne!(digest_of(1), digest_of(2));
}

#[test]
fn a_full_cache_evicts_only_unprotected_readable_slots() {
    let mut transfer = TerrainTransfer::new();
    let first = stream(&mut transfer, window(20, 20), &BTreeSet::new());
    let second = stream(&mut transfer, window(40, 40), &first);
    assert!(first.is_disjoint(&second));
    let report = transfer.reserve(window(60, 60), &second).unwrap();
    assert_eq!(report.counts.evicted_region_count, 25);
    let ticket = transfer
        .submit(report.transaction_id, uploads_for(&report.assignments))
        .unwrap();
    let released: BTreeSet<u32> = ticket.released_slots().into_iter().collect();
    assert_eq!(released, first);
    let submission = transfer.commit_submission(ticket);
    let publication = transfer.poll(submission.copy_fence).unwrap();
    let third: BTreeSet<u32> = publication.active.iter().map(|a| a.slot).collect();
    assert_eq!(third, first);
}

#[test]
fn an_abandoned_submission_leaves_its_slots_unreadable() {
    let mut transfer = TerrainTransfer::new();
    let first = stream(&mut transfer, window(20, 20), &BTreeSet::new());
    let second = stream(&mut transfer, window(40, 40), &first);
    let report = transfer.reserve(window(60, 60), &second).unwrap();
    let ticket = transfer
        .submit(report.transaction_id, uploads_for(&report.assignments))
        .unwrap();
    drop(ticket);
    let again = transfer.reserve(window(60, 60), &second).unwrap();
    assert!(matches!(
        transfer.submit(again.transaction_id, uploads_for(&again.assignments)),
        Err(TransferError::ReusedSlotNotReadable)
    ));
}

#[test]
fn the_copy_gate_arms_only_while_idle() {
    let mut transfer = TerrainTransfer::new();
    assert_eq!(transfer.release_gate(), Err(TransferError::GateNotArmed));
    assert_eq!(transfer.arm_gate(), Ok(1));
    assert_eq!(transfer.arm_gate(), Err(TransferError::GateBusy));
    assert_eq!(transfer.armed_gate(), Some(1));

    let report = transfer.reserve(window(64, 64), &BTreeSet::new()).unwrap();
    let ticket = transfer
        .submit(report.transaction_id, uploads_for(&report.assignments))
        .unwrap();
    let submission = transfer.commit_submission(ticket);
    assert_eq!(submission.copy_gate_fence, Some(1));

    assert_eq!(transfer.release_gate(), Ok(1));
    assert_eq!(transfer.armed_gate(), None);
    assert_eq!(transfer.arm_gate(), Err(TransferError::GateBusy));
    let wait = transfer.wait_idle();
    assert_eq!(wait.signal_gate, None);
    assert_eq!(wait.copy_fence, Some(submission.copy_fence));
    transfer.poll(submission.copy_fence).unwrap();
    assert_eq!(transfer.arm_gate(), Ok(2));
    let wait = transfer.wait_idle();
    assert_eq!(wait.signal_gate, Some(2));
    assert_eq!(wait.copy_fence, None);
    assert_eq!(transfer.armed_gate(), None);
}

#[test]
fn cancel_restores_the_transfer_but_the_counter() {
    let mut transfer = TerrainTransfer::new();
    let first = transfer.reserve(window(64, 64), &BTreeSet::new()).unwrap();
    transfer.cancel(first.transaction_id).unwrap();
    assert!(!transfer.is_busy());
    assert_eq!(transfer.armed_gate(), None);
    assert_eq!(transfer.next_copy_fence(), 1);
    let second = transfer.reserve(window(64, 64), &BTreeSet::new()).unwrap();
    assert_eq!(second.transaction_id, first.transaction_id + 1);
    assert_eq!(second.assignments, first.assignments);
    assert_eq!(second.counts, first.counts);
}

#[test]
fn gate_round_trips_return_increasing_values() {
    let mut transfer = TerrainTransfer::new();
    for expected in 1..=3u64 {
        assert_eq!(transfer.arm_gate(), Ok(expected));
        assert_eq!(transfer.release_gate(), Ok(expected));
        assert_eq!(transfer.armed_gate(), None);
        assert!(!transfer.is_busy());
    }
    assert_eq!(transfer.next_gate_fence(), 4);
}
