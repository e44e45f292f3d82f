use vstd::prelude::*;

use super::transfer::{
    arms_gate, cancels, releases_gate, reservation_taken, same_but_reservation, TerrainReservationReport,
    TerrainTransfer, TransferError,
};

verus! {

/// Cancelling a reservation right after taking it gives the transfer back
/// as it was, but for the transaction counter, which stays advanced so that
/// no transaction id is handed out twice.
pub proof fn law_cancel_undoes_reservation(
    a: TerrainTransfer,
    b: TerrainTransfer,
    c: TerrainTransfer,
    report: TerrainReservationReport,
    r: Result<(), TransferError>,
)
    requires
        reservation_taken(a, b, report),
        cancels(b, c, report.transaction_id, r),
    ensures
        r is Ok,
        c.reserved() is None,
        a.reserved() is None,
        same_but_reservation(c, a),
        c.next_transaction() == a.next_transaction() + 1,
{
}

/// Transaction ids are never reused: a reservation taken after another one
/// was cancelled carries the next id.
pub proof fn law_transaction_ids_increase(
    a: TerrainTransfer,
    b: TerrainTransfer,
    c: TerrainTransfer,
    d: TerrainTransfer,
    first: TerrainReservationReport,
    r: Result<(), TransferError>,
    second: TerrainReservationReport,
)
    requires
        reservation_taken(a, b, first),
        cancels(b, c, first.transaction_id, r),
        reservation_taken(c, d, second),
    ensures
        second.transaction_id == first.transaction_id + 1,
{
}

/// Releasing an armed copy gate returns the value that arming it returned,
/// and leaves the transfer as it was before arming, but for the counter of
/// gate values.
pub proof fn law_gate_round_trip(
    a: TerrainTransfer,
    b: TerrainTransfer,
    c: TerrainTransfer,
    armed: u64,
    r: Result<u64, TransferError>,
)
    requires
        arms_gate(a, b, Ok(armed)),
        releases_gate(b, c, r),
    ensures
        r == Ok::<u64, TransferError>(armed),
        a.gate() is None,
        c.gate() is None,
        c.next_gate() == armed + 1,
        c.cache() == a.cache(),
        c.readable() == a.readable(),
        c.reserved() == a.reserved(),
        c.pending() == a.pending(),
        c.next_copy() == a.next_copy(),
        c.next_transaction() == a.next_transaction(),
        c.last_completed() == a.last_completed(),
{
}

/// Copy gates never repeat a value: a gate armed after another one was
/// released carries the next value.
pub proof fn law_gate_values_increase(
    a: TerrainTransfer,
    b: TerrainTransfer,
    c: TerrainTransfer,
    d: TerrainTransfer,
    first: u64,
    r: Result<u64, TransferError>,
    second: u64,
)
    requires
        arms_gate(a, b, Ok(first)),
        releases_gate(b, c, r),
        arms_gate(c, d, Ok(second)),
    ensures
        second == first + 1,
{
}

} // verus!
