use vstd::prelude::*;
use std::collections::BTreeSet;

use crate::address::GlobalTerrainConfig;
use crate::digest::{le_i64, le_u32, push_i64_le, push_u32_le, sha256_hex, sha256_hex_of};
use crate::load::LoadConfig;
use crate::world::RegionCoord;
use vstd::utf8::encode_utf8;
use vstd::string::StrSliceExecFns;

use super::cache::{
    aliased_plan_result, layout_in_range, legacy_plan_result, LayoutPlan, PlanError, TerrainAssignment,
    TerrainCache, TerrainPlanCounts, TERRAIN_CACHE_CAPACITY,
};

verus! {

/// Why the terrain transfer refused a request.
#[derive(Clone, Copy, Debug, PartialEq, Eq)]
pub enum TransferError {
    /// A reservation or a copy is already in flight.
    Busy,
    /// The cache could not plan the window.
    Plan(PlanError),
    /// No reservation is held.
    NoReservation,
    /// The request names another transaction than the reservation.
    ReservationMismatch,
    /// There is not one upload per planned assignment.
    UploadCountMismatch,
    /// An upload goes to another slot or region than its assignment.
    UploadAssignmentMismatch,
    /// An upload's tile belongs to another region.
    UploadTileMismatch,
    /// A slot that the plan evicts is not shader-readable.
    ReusedSlotNotReadable,
    /// A copy gate or a transaction is already active.
    GateBusy,
    /// The copy gate is not armed.
    GateNotArmed,
}

/// What a reservation announces: the transaction, its windows, its tallies
/// and the uploads it expects.
#[derive(Debug)]
pub struct TerrainReservationReport {
    pub transaction_id: u64,
    pub config: LoadConfig,
    pub global_config: Option<GlobalTerrainConfig>,
    pub counts: TerrainPlanCounts,
    pub assignments: Vec<TerrainAssignment>,
}

/// One region tile to copy into its slot.
#[derive(Debug)]
pub struct TerrainUpload {
    pub slot: u32,
    pub region_id: u32,
    pub global_region: Option<RegionCoord>,
    /// The region that the tile itself names.
    pub tile_region_id: u32,
    pub payload: Vec<u8>,
    /// Hexadecimal digest of the payload, as its source reported it.
    pub sha256: String,
}

/// A held reservation: its transaction and the plan it fixed.
pub struct ReservedTransfer {
    pub transaction_id: u64,
    pub layout: LayoutPlan,
}

/// A copy in flight: the cache and active mapping it publishes, the slots it
/// fills, and the fence value that marks its end.
pub struct PendingTransfer {
    pub transaction_id: u64,
    pub copy_fence: u64,
    pub next_cache: TerrainCache,
    pub active: Vec<TerrainAssignment>,
    pub uploaded_slots: Vec<u32>,
}

/// What a committed submission reports.
#[derive(Debug)]
pub struct TerrainSubmission {
    pub transaction_id: u64,
    pub config: LoadConfig,
    pub global_config: Option<GlobalTerrainConfig>,
    pub counts: TerrainPlanCounts,
    /// Digest of every upload's slot, region, global coordinate, payload and
    /// payload digest, in order.
    pub uploaded_sha256: String,
    pub copy_fence: u64,
    /// The armed copy-gate value that the copy waits on, if any.
    pub copy_gate_fence: Option<u64>,
}

/// A finished copy, ready to publish.
#[derive(Debug)]
pub struct TerrainPublication {
    pub transaction_id: u64,
    pub active: Vec<TerrainAssignment>,
    /// Slots that turn shader-readable.
    pub uploaded_slots: Vec<u32>,
}

/// What shutting down must still do: signal an armed gate and wait for a
/// copy in flight.
#[derive(Clone, Copy, Debug, PartialEq, Eq)]
pub struct IdleWait {
    pub signal_gate: Option<u64>,
    pub copy_fence: Option<u64>,
}

/// An upload goes where its assignment says.
pub open spec fn upload_matches(a: TerrainAssignment, u: TerrainUpload) -> bool {
    &&& a.slot == u.slot
    &&& a.region_id == u.region_id
    &&& a.global_region == u.global_region
}

/// The first fault among the first `n` pairs of assignments and uploads:
/// a misdirected upload, else a tile of another region.
pub open spec fn upload_fault(
    assignments: Seq<TerrainAssignment>,
    uploads: Seq<TerrainUpload>,
    n: nat,
) -> Option<TransferError>
    decreases n,
{
    if n == 0 {
        None
    } else {
        match upload_fault(assignments, uploads, (n - 1) as nat) {
            Some(e) => Some(e),
            None => {
                let (a, u) = (assignments[n - 1], uploads[n - 1]);
                if !upload_matches(a, u) {
                    Some(TransferError::UploadAssignmentMismatch)
                } else if u.tile_region_id != u.region_id {
                    Some(TransferError::UploadTileMismatch)
                } else {
                    None
                }
            },
        }
    }
}

/// Releasing the first `n` evicted slots in order: each must be
/// shader-readable and stops being so; the flag says whether all were.
pub open spec fn release_slots(readable: Seq<bool>, reused: Seq<u32>, n: nat) -> (Seq<bool>, bool)
    decreases n,
{
    if n == 0 {
        (readable, true)
    } else {
        let (r, ok) = release_slots(readable, reused, (n - 1) as nat);
        let slot = reused[n - 1] as int;
        if !ok {
            (r, false)
        } else if r[slot] {
            (r.update(slot, false), true)
        } else {
            (r, false)
        }
    }
}

/// The slots of some uploads, in order.
pub open spec fn upload_slots(uploads: Seq<TerrainUpload>) -> Seq<u32> {
    Seq::new(uploads.len(), |k: int| uploads[k].slot)
}

/// The bytes of one upload that the transaction digest covers.
pub open spec fn upload_bytes(u: TerrainUpload) -> Seq<u8> {
    let place = match u.global_region {
        Some(g) => le_i64(g.x) + le_i64(g.z),
        None => Seq::empty(),
    };
    le_u32(u.slot) + le_u32(u.region_id) + place + u.payload@ + encode_utf8(u.sha256@)
}

/// The bytes of all uploads, in order.
pub open spec fn upload_evidence(uploads: Seq<TerrainUpload>) -> Seq<u8>
    decreases uploads.len(),
{
    if uploads.len() == 0 {
        Seq::empty()
    } else {
        upload_evidence(uploads.drop_last()) + upload_bytes(uploads.last())
    }
}

/// Marks the given slots shader-readable.
pub open spec fn mark_readable(readable: Seq<bool>, slots: Seq<u32>) -> Seq<bool> {
    Seq::new(readable.len(), |i: int| readable[i] || slots.contains(i as u32))
}

/// A reservation report tells what the reservation fixed.
pub open spec fn reports(report: TerrainReservationReport, res: ReservedTransfer) -> bool {
    &&& report.transaction_id == res.transaction_id
    &&& report.config == res.layout.config
    &&& report.global_config == res.layout.global_config
    &&& report.counts == res.layout.counts
    &&& report.assignments@ == res.layout.assignments@
}

/// Every slot that a pending copy names is a slot of the cache.
pub open spec fn pending_in_range(p: PendingTransfer) -> bool {
    &&& forall|i: int| 0 <= i < p.active@.len() ==> #[trigger] p.active@[i].slot < TERRAIN_CACHE_CAPACITY
    &&& forall|i: int| 0 <= i < p.uploaded_slots@.len() ==> #[trigger] p.uploaded_slots@[i] < TERRAIN_CACHE_CAPACITY
}

/// A validated submission, waiting for the caller to issue its copy: the
/// transaction, its plan and its uploads, one per planned assignment.
pub struct SubmitTicket {
    transaction_id: u64,
    layout: LayoutPlan,
    uploads: Vec<TerrainUpload>,
}

impl SubmitTicket {
    #[verifier::type_invariant]
    spec fn inv(self) -> bool {
        &&& layout_in_range(self.layout)
        &&& self.uploads@.len() == self.layout.assignments@.len()
        &&& forall|i: int| 0 <= i < self.uploads@.len() ==> upload_matches(
            #[trigger] self.layout.assignments@[i],
            self.uploads@[i],
        )
    }

    pub closed spec fn transaction(self) -> u64 {
        self.transaction_id
    }

    pub closed spec fn plan(self) -> LayoutPlan {
        self.layout
    }

    pub closed spec fn upload_list(self) -> Seq<TerrainUpload> {
        self.uploads@
    }

    /// The uploads whose payloads the copy writes.
    pub fn uploads(&self) -> (r: &Vec<TerrainUpload>)
        ensures
            r@ == self.upload_list(),
    {
        &self.uploads
    }

    /// The slots whose tiles the copy replaces, which stop being
    /// shader-readable before it.
    pub fn released_slots(&self) -> (r: Vec<u32>)
        ensures
            r@ == self.plan().reused_slots@,
    {
        copy_u32s(&self.layout.reused_slots)
    }
}

/// The control state of the terrain copy stream: the cache that the
/// published tiles follow, which slots shaders may read, the reservation or
/// copy in flight, and the copy gate.
pub struct TerrainTransfer {
    cache: TerrainCache,
    shader_slots: Vec<bool>,
    reservation: Option<ReservedTransfer>,
    pending: Option<PendingTransfer>,
    armed_gate: Option<u64>,
    next_gate_fence: u64,
    next_copy_fence: u64,
    next_transaction_id: u64,
    last_completed: Option<u64>,
}

/// Two transfers agree on everything but the reservation and the
/// transaction counter.
pub open spec fn same_but_reservation(a: TerrainTransfer, b: TerrainTransfer) -> bool {
    &&& a.cache() == b.cache()
    &&& a.readable() == b.readable()
    &&& a.pending() == b.pending()
    &&& a.gate() == b.gate()
    &&& a.next_gate() == b.next_gate()
    &&& a.next_copy() == b.next_copy()
    &&& a.last_completed() == b.last_completed()
}

/// `b` is `a` with a new reservation, reported by `report`: `a` was idle,
/// the reservation takes the next transaction id, which advances, and
/// nothing else changes.
pub open spec fn reservation_taken(a: TerrainTransfer, b: TerrainTransfer, report: TerrainReservationReport) -> bool {
    &&& !a.busy()
    &&& b.reserved() matches Some(res) && reports(report, res) && res.transaction_id == a.next_transaction()
    &&& b.next_transaction() == a.next_transaction() + 1
    &&& same_but_reservation(b, a)
}

/// Cancelling `transaction_id` on `a` gives `b` and `r`: refused, with
/// nothing changed, when there is no reservation or it is another
/// transaction's; otherwise the reservation is dropped and nothing else
/// changes.
pub open spec fn cancels(a: TerrainTransfer, b: TerrainTransfer, transaction_id: u64, r: Result<(), TransferError>) -> bool {
    match a.reserved() {
        None => r == Err::<(), TransferError>(TransferError::NoReservation) && b == a,
        Some(res) => if res.transaction_id != transaction_id {
            r == Err::<(), TransferError>(TransferError::ReservationMismatch) && b == a
        } else {
            &&& r == Ok::<(), TransferError>(())
            &&& b.reserved() is None
            &&& b.next_transaction() == a.next_transaction()
            &&& same_but_reservation(b, a)
        },
    }
}

/// Arming a copy gate on `a` gives `b` and `r`: refused while a gate, a
/// reservation or a copy is active; otherwise the next gate-fence value is
/// armed and returned.
pub open spec fn arms_gate(a: TerrainTransfer, b: TerrainTransfer, r: Result<u64, TransferError>) -> bool {
    if a.busy() || a.gate() is Some {
        r == Err::<u64, TransferError>(TransferError::GateBusy) && b == a
    } else {
        &&& r == Ok::<u64, TransferError>(a.next_gate())
        &&& b.gate() == Some(a.next_gate())
        &&& b.next_gate() == a.next_gate() + 1
        &&& b.cache() == a.cache()
        &&& b.readable() == a.readable()
        &&& b.reserved() == a.reserved()
        &&& b.pending() == a.pending()
        &&& b.next_copy() == a.next_copy()
        &&& b.next_transaction() == a.next_transaction()
        &&& b.last_completed() == a.last_completed()
    }
}

/// Releasing the copy gate of `a` gives `b` and `r`: refused when none is armed;
/// otherwise the armed value is returned and disarmed.
pub open spec fn releases_gate(a: TerrainTransfer, b: TerrainTransfer, r: Result<u64, TransferError>) -> bool {
    match a.gate() {
        None => r == Err::<u64, TransferError>(TransferError::GateNotArmed) && b == a,
        Some(v) => {
            &&& r == Ok::<u64, TransferError>(v)
            &&& b.gate() is None
            &&& b.next_gate() == a.next_gate()
            &&& b.cache() == a.cache()
            &&& b.readable() == a.readable()
            &&& b.reserved() == a.reserved()
            &&& b.pending() == a.pending()
            &&& b.next_copy() == a.next_copy()
            &&& b.next_transaction() == a.next_transaction()
            &&& b.last_completed() == a.last_completed()
        },
    }
}

impl TerrainTransfer {
    #[verifier::type_invariant]
    spec fn inv(self) -> bool {
        &&& self.shader_slots@.len() == TERRAIN_CACHE_CAPACITY
        &&& !(self.reservation is Some && self.pending is Some)
        &&& self.reservation matches Some(r) ==> layout_in_range(r.layout)
        &&& self.pending matches Some(p) ==> pending_in_range(p)
    }

    pub closed spec fn cache(self) -> TerrainCache {
        self.cache
    }

    /// Which slots shaders may read.
    pub closed spec fn readable(self) -> Seq<bool> {
        self.shader_slots@
    }

    pub closed spec fn reserved(self) -> Option<ReservedTransfer> {
        self.reservation
    }

    pub closed spec fn pending(self) -> Option<PendingTransfer> {
        self.pending
    }

    pub closed spec fn gate(self) -> Option<u64> {
        self.armed_gate
    }

    pub closed spec fn next_gate(self) -> u64 {
        self.next_gate_fence
    }

    pub closed spec fn next_copy(self) -> u64 {
        self.next_copy_fence
    }

    pub closed spec fn next_transaction(self) -> u64 {
        self.next_transaction_id
    }

    pub closed spec fn last_completed(self) -> Option<u64> {
        self.last_completed
    }

    /// A reservation or a copy is in flight.
    pub open spec fn busy(self) -> bool {
        self.reserved() is Some || self.pending() is Some
    }

    /// An idle transfer over an empty cache; every counter starts at one.
    pub fn new() -> (r: TerrainTransfer)
        ensures
            r.cache().table() == Seq::new(TERRAIN_CACHE_CAPACITY as nat, |i: int| None::<super::cache::CacheEntry>),
            r.cache().time() == 0,
            r.readable() == Seq::new(TERRAIN_CACHE_CAPACITY as nat, |i: int| false),
            r.reserved() is None,
            r.pending() is None,
            r.gate() is None,
            r.next_gate() == 1,
            r.next_copy() == 1,
            r.next_transaction() == 1,
            r.last_completed() is None,
    {
        let mut shader_slots: Vec<bool> = Vec::new();
        while shader_slots.len() < TERRAIN_CACHE_CAPACITY
            invariant
                shader_slots@.len() <= TERRAIN_CACHE_CAPACITY,
                forall|i: int| 0 <= i < shader_slots@.len() ==> !shader_slots@[i],
            decreases TERRAIN_CACHE_CAPACITY - shader_slots@.len(),
        {
            shader_slots.push(false);
        }
        assert(shader_slots@ =~= Seq::new(TERRAIN_CACHE_CAPACITY as nat, |i: int| false));
        TerrainTransfer {
            cache: TerrainCache::new(),
            shader_slots,
            reservation: None,
            pending: None,
            armed_gate: None,
            next_gate_fence: 1,
            next_copy_fence: 1,
            next_transaction_id: 1,
            last_completed: None,
        }
    }

    pub fn is_busy(&self) -> (r: bool)
        ensures
            r == self.busy(),
    {
        self.reservation.is_some() || self.pending.is_some()
    }

    pub fn cache_time(&self) -> (r: u64)
        ensures
            r == self.cache().time(),
    {
        self.cache.clock_value()
    }

    pub fn next_transaction_id(&self) -> (r: u64)
        ensures
            r == self.next_transaction(),
    {
        self.next_transaction_id
    }

    pub fn next_copy_fence(&self) -> (r: u64)
        ensures
            r == self.next_copy(),
    {
        self.next_copy_fence
    }

    pub fn next_gate_fence(&self) -> (r: u64)
        ensures
            r == self.next_gate(),
    {
        self.next_gate_fence
    }

    /// The transaction of the held reservation.
    pub fn reservation_id(&self) -> (r: Option<u64>)
        ensures
            r == (match self.reserved() {
                Some(res) => Some(res.transaction_id),
                None => None,
            }),
    {
        match &self.reservation {
            Some(res) => Some(res.transaction_id),
            None => None,
        }
    }

    /// The transaction of the copy in flight.
    pub fn pending_id(&self) -> (r: Option<u64>)
        ensures
            r == (match self.pending() {
                Some(p) => Some(p.transaction_id),
                None => None,
            }),
    {
        match &self.pending {
            Some(p) => Some(p.transaction_id),
            None => None,
        }
    }

    pub fn armed_gate(&self) -> (r: Option<u64>)
        ensures
            r == self.gate(),
    {
        self.armed_gate
    }

    pub fn last_completed_id(&self) -> (r: Option<u64>)
        ensures
            r == self.last_completed(),
    {
        self.last_completed
    }

    /// Holds `layout` under the next transaction and reports it.
    fn reserve_layout(&mut self, layout: LayoutPlan) -> (r: TerrainReservationReport)
        requires
            !old(self).busy(),
            layout_in_range(layout),
            old(self).next_transaction() < u64::MAX,
        ensures
            final(self).reserved() matches Some(res) && res.transaction_id == old(self).next_transaction()
                && res.layout == layout && reports(r, res),
            final(self).next_transaction() == old(self).next_transaction() + 1,
            same_but_reservation(*final(self), *old(self)),
    {
        proof {
            use_type_invariant(&*self);
        }
        let transaction_id = self.next_transaction_id;
        self.next_transaction_id = transaction_id + 1;
        let report = TerrainReservationReport {
            transaction_id,
            config: layout.config,
            global_config: layout.global_config,
            counts: layout.counts,
            assignments: copy_assignments(&layout.assignments),
        };
        self.reservation = Some(ReservedTransfer { transaction_id, layout });
        report
    }

    /// Reserves the local window of `config`: refused while a reservation or
    /// a copy is in flight, or when the cache cannot plan the window;
    /// otherwise the plan is held under the next transaction.
    pub fn reserve(&mut self, config: LoadConfig, protected: &BTreeSet<u32>) -> (r: Result<
        TerrainReservationReport,
        TransferError,
    >)
        requires
            config.wf(),
            old(self).cache().time() < u64::MAX,
            old(self).next_transaction() < u64::MAX,
        ensures
            old(self).busy() ==> r == Err::<TerrainReservationReport, TransferError>(TransferError::Busy)
                && *final(self) == *old(self),
            !old(self).busy() ==> match r {
                Ok(report) => reservation_taken(*old(self), *final(self), report) && (final(self).reserved() matches Some(
                    res,
                ) && legacy_plan_result(old(self).cache(), config, protected@, Ok(res.layout))),
                Err(TransferError::Plan(e)) => legacy_plan_result(
                    old(self).cache(),
                    config,
                    protected@,
                    Err(e),
                ) && *final(self) == *old(self),
                Err(_) => false,
            },
    {
        if self.is_busy() {
            return Err(TransferError::Busy);
        }
        match self.cache.plan(config, protected) {
            Ok(layout) => Ok(self.reserve_layout(layout)),
            Err(e) => Err(TransferError::Plan(e)),
        }
    }

    /// Reserves the global window `config`, with tiles keyed by local id and
    /// global coordinate; refused as `reserve` is.
    pub fn reserve_global(&mut self, config: GlobalTerrainConfig, protected: &BTreeSet<u32>) -> (r:
        Result<TerrainReservationReport, TransferError>)
        requires
            config.wf(),
            old(self).cache().time() < u64::MAX,
            old(self).next_transaction() < u64::MAX,
        ensures
            old(self).busy() ==> r == Err::<TerrainReservationReport, TransferError>(TransferError::Busy)
                && *final(self) == *old(self),
            !old(self).busy() ==> match r {
                Ok(report) => reservation_taken(*old(self), *final(self), report) && (final(self).reserved() matches Some(
                    res,
                ) && aliased_plan_result(old(self).cache(), config, protected@, Ok(res.layout))),
                Err(TransferError::Plan(e)) => aliased_plan_result(
                    old(self).cache(),
                    config,
                    protected@,
                    Err(e),
                ) && *final(self) == *old(self),
                Err(_) => false,
            },
    {
        if self.is_busy() {
            return Err(TransferError::Busy);
        }
        match self.cache.plan_global(config, protected) {
            Ok(layout) => Ok(self.reserve_layout(layout)),
            Err(e) => Err(TransferError::Plan(e)),
        }
    }

    /// Drops the reservation of `transaction_id`.
    pub fn cancel(&mut self, transaction_id: u64) -> (r: Result<(), TransferError>)
        ensures
            cancels(*old(self), *final(self), transaction_id, r),
    {
        proof {
            use_type_invariant(&*self);
        }
        let matches = match &self.reservation {
            None => return Err(TransferError::NoReservation),
            Some(res) => res.transaction_id == transaction_id,
        };
        if !matches {
            return Err(TransferError::ReservationMismatch);
        }
        self.reservation = None;
        Ok(())
    }

    /// Takes the reservation and checks `uploads` against it: one per
    /// planned assignment, each to its slot and region, each tile of its
    /// region. Then releases the evicted slots in order, each of which must
    /// be shader-readable. The reservation is consumed whatever the outcome;
    /// slots released before a fault stay released.
    pub fn submit(&mut self, transaction_id: u64, uploads: Vec<TerrainUpload>) -> (r: Result<
        SubmitTicket,
        TransferError,
    >)
        ensures
            match old(self).reserved() {
                None => r matches Err(e) && e == TransferError::NoReservation && *final(self) == *old(self),
                Some(res) => {
                    let released = release_slots(
                        old(self).readable(),
                        res.layout.reused_slots@,
                        res.layout.reused_slots@.len(),
                    );
                    &&& final(self).reserved() is None
                    &&& final(self).cache() == old(self).cache()
                    &&& final(self).pending() == old(self).pending()
                    &&& final(self).gate() == old(self).gate()
                    &&& final(self).next_gate() == old(self).next_gate()
                    &&& final(self).next_copy() == old(self).next_copy()
                    &&& final(self).next_transaction() == old(self).next_transaction()
                    &&& final(self).last_completed() == old(self).last_completed()
                    &&& if res.transaction_id != transaction_id {
                        r matches Err(e) && e == TransferError::ReservationMismatch
                            && final(self).readable() == old(self).readable()
                    } else if uploads@.len() != res.layout.assignments@.len() {
                        r matches Err(e) && e == TransferError::UploadCountMismatch
                            && final(self).readable() == old(self).readable()
                    } else if upload_fault(res.layout.assignments@, uploads@, uploads@.len()) is Some {
                        r matches Err(e) && Some(e) == upload_fault(
                            res.layout.assignments@,
                            uploads@,
                            uploads@.len(),
                        ) && final(self).readable() == old(self).readable()
                    } else if !released.1 {
                        r matches Err(e) && e == TransferError::ReusedSlotNotReadable
                            && final(self).readable() == released.0
                    } else {
                        r matches Ok(ticket) && {
                            &&& ticket.transaction() == transaction_id
                            &&& ticket.plan() == res.layout
                            &&& ticket.upload_list() == uploads@
                            &&& final(self).readable() == released.0
                        }
                    }
                },
            },
    {
        proof {
            use_type_invariant(&*self);
        }
        let mut taken: Option<ReservedTransfer> = None;
        std::mem::swap(&mut taken, &mut self.reservation);
        let reservation = match taken {
            None => return Err(TransferError::NoReservation),
            Some(res) => res,
        };
        proof {
            use_type_invariant(&*self);
        }
        if reservation.transaction_id != transaction_id {
            return Err(TransferError::ReservationMismatch);
        }
        if uploads.len() != reservation.layout.assignments.len() {
            return Err(TransferError::UploadCountMismatch);
        }
        match check_uploads(&reservation.layout.assignments, &uploads) {
            Some(e) => return Err(e),
            None => {},
        }
        let mut readable = copy_bools(&self.shader_slots);
        let ok = release_in_order(&mut readable, &reservation.layout.reused_slots);
        self.shader_slots = readable;
        if !ok {
            return Err(TransferError::ReusedSlotNotReadable);
        }
        proof {
            lemma_no_fault_matches(reservation.layout.assignments@, uploads@, uploads@.len());
        }
        Ok(SubmitTicket { transaction_id, layout: reservation.layout, uploads })
    }

    /// Records the copy of a validated submission as in flight, under the
    /// next copy-fence value and behind the armed gate, if any.
    pub fn commit_submission(&mut self, ticket: SubmitTicket) -> (r: TerrainSubmission)
        requires
            !old(self).busy(),
            old(self).next_copy() < u64::MAX,
        ensures
            final(self).pending() matches Some(p) && {
                &&& p.transaction_id == ticket.transaction()
                &&& p.copy_fence == old(self).next_copy()
                &&& p.next_cache == ticket.plan().next_cache
                &&& p.active@ == ticket.plan().active@
                &&& p.uploaded_slots@ == upload_slots(ticket.upload_list())
            },
            final(self).next_copy() == old(self).next_copy() + 1,
            final(self).cache() == old(self).cache(),
            final(self).readable() == old(self).readable(),
            final(self).reserved() is None,
            final(self).gate() == old(self).gate(),
            final(self).next_gate() == old(self).next_gate(),
            final(self).next_transaction() == old(self).next_transaction(),
            final(self).last_completed() == old(self).last_completed(),
            r.transaction_id == ticket.transaction(),
            r.config == ticket.plan().config,
            r.global_config == ticket.plan().global_config,
            r.counts == ticket.plan().counts,
            r.uploaded_sha256@ == sha256_hex(upload_evidence(ticket.upload_list())),
            r.copy_fence == old(self).next_copy(),
            r.copy_gate_fence == old(self).gate(),
    {
        proof {
            use_type_invariant(&*self);
            use_type_invariant(&ticket);
        }
        let copy_fence = self.next_copy_fence;
        self.next_copy_fence = copy_fence + 1;
        let evidence = upload_evidence_bytes(&ticket.uploads);
        let uploaded_sha256 = sha256_hex_of(&evidence);
        let uploaded_slots = slots_of_uploads(&ticket.uploads);
        let SubmitTicket { transaction_id, layout, uploads } = ticket;
        let LayoutPlan { config, global_config, next_cache, active, counts, .. } = layout;
        proof {
            assert forall|i: int| 0 <= i < uploaded_slots@.len() implies #[trigger] uploaded_slots@[i]
                < TERRAIN_CACHE_CAPACITY by {
                assert(upload_matches(layout.assignments@[i], uploads@[i]));
                assert(layout.assignments@[i].slot < TERRAIN_CACHE_CAPACITY);
            }
        }
        self.pending = Some(
            PendingTransfer { transaction_id, copy_fence, next_cache, active, uploaded_slots },
        );
        TerrainSubmission {
            transaction_id,
            config,
            global_config,
            counts,
            uploaded_sha256,
            copy_fence,
            copy_gate_fence: self.armed_gate,
        }
    }

    /// Publishes the copy in flight once the copy fence has reached its
    /// value: its slots turn shader-readable and its cache becomes the
    /// transfer's.
    pub fn poll(&mut self, copy_completed: u64) -> (r: Option<TerrainPublication>)
        ensures
            match old(self).pending() {
                None => r is None && *final(self) == *old(self),
                Some(p) => if copy_completed < p.copy_fence {
                    r is None && *final(self) == *old(self)
                } else {
                    r matches Some(publication) && {
                        &&& publication.transaction_id == p.transaction_id
                        &&& publication.active@ == p.active@
                        &&& publication.uploaded_slots@ == p.uploaded_slots@
                        &&& final(self).cache() == p.next_cache
                        &&& final(self).readable() == mark_readable(old(self).readable(), p.uploaded_slots@)
                        &&& final(self).pending() is None
                        &&& final(self).reserved() is None
                        &&& final(self).last_completed() == Some(p.transaction_id)
                        &&& final(self).gate() == old(self).gate()
                        &&& final(self).next_gate() == old(self).next_gate()
                        &&& final(self).next_copy() == old(self).next_copy()
                        &&& final(self).next_transaction() == old(self).next_transaction()
                    }
                },
            },
    {
        proof {
            use_type_invariant(&*self);
        }
        let ready = match &self.pending {
            None => return None,
            Some(p) => copy_completed >= p.copy_fence,
        };
        if !ready {
            return None;
        }
        let mut taken: Option<PendingTransfer> = None;
        std::mem::swap(&mut taken, &mut self.pending);
        let pending = match taken {
            Some(p) => p,
            None => return None,
        };
        let mut readable = copy_bools(&self.shader_slots);
        mark_in_order(&mut readable, &pending.uploaded_slots);
        self.shader_slots = readable;
        let PendingTransfer { transaction_id, copy_fence: _, next_cache, active, uploaded_slots } = pending;
        self.cache = next_cache;
        self.last_completed = Some(transaction_id);
        Some(TerrainPublication { transaction_id, active, uploaded_slots })
    }

    /// Arms the copy gate under the next gate-fence value; refused while a
    /// gate, a reservation or a copy is active.
    pub fn arm_gate(&mut self) -> (r: Result<u64, TransferError>)
        requires
            old(self).next_gate() < u64::MAX,
        ensures
            arms_gate(*old(self), *final(self), r),
    {
        proof {
            use_type_invariant(&*self);
        }
        if self.reservation.is_some() || self.pending.is_some() || self.armed_gate.is_some() {
            return Err(TransferError::GateBusy);
        }
        let value = self.next_gate_fence;
        self.next_gate_fence = value + 1;
        self.armed_gate = Some(value);
        Ok(value)
    }

    /// Disarms the copy gate and returns the value the caller signals on
    /// its fence.
    pub fn release_gate(&mut self) -> (r: Result<u64, TransferError>)
        ensures
            releases_gate(*old(self), *final(self), r),
    {
        proof {
            use_type_invariant(&*self);
        }
        match self.armed_gate {
            None => Err(TransferError::GateNotArmed),
            Some(value) => {
                self.armed_gate = None;
                Ok(value)
            },
        }
    }

    /// Before shutdown: disarms any copy gate, whose value the caller signals,
    /// and names the copy-fence value to wait for.
    pub fn wait_idle(&mut self) -> (r: IdleWait)
        ensures
            r.signal_gate == old(self).gate(),
            r.copy_fence == (match old(self).pending() {
                Some(p) => Some(p.copy_fence),
                None => None,
            }),
            final(self).gate() is None,
            final(self).next_gate() == old(self).next_gate(),
            final(self).cache() == old(self).cache(),
            final(self).readable() == old(self).readable(),
            final(self).reserved() == old(self).reserved(),
            final(self).pending() == old(self).pending(),
            final(self).next_copy() == old(self).next_copy(),
            final(self).next_transaction() == old(self).next_transaction(),
            final(self).last_completed() == old(self).last_completed(),
    {
        proof {
            use_type_invariant(&*self);
        }
        let signal_gate = self.armed_gate;
        self.armed_gate = None;
        let copy_fence = match &self.pending {
            Some(p) => Some(p.copy_fence),
            None => None,
        };
        IdleWait { signal_gate, copy_fence }
    }
}

/// No fault among the first `n` pairs means each of them matches.
proof fn lemma_no_fault_matches(assignments: Seq<TerrainAssignment>, uploads: Seq<TerrainUpload>, n: nat)
    requires
        n <= assignments.len(),
        n <= uploads.len(),
        upload_fault(assignments, uploads, n) is None,
    ensures
        forall|i: int| 0 <= i < n ==> upload_matches(#[trigger] assignments[i], uploads[i]),
    decreases n,
{
    if n > 0 {
        lemma_no_fault_matches(assignments, uploads, (n - 1) as nat);
    }
}

/// Once a fault is found it is the one reported.
proof fn lemma_fault_stays(assignments: Seq<TerrainAssignment>, uploads: Seq<TerrainUpload>, j: nat, n: nat)
    requires
        j <= n,
        upload_fault(assignments, uploads, j) is Some,
    ensures
        upload_fault(assignments, uploads, n) == upload_fault(assignments, uploads, j),
    decreases n - j,
{
    if j < n {
        lemma_fault_stays(assignments, uploads, j, (n - 1) as nat);
    }
}

/// The first fault among the pairs, as `upload_fault` names it.
fn check_uploads(assignments: &Vec<TerrainAssignment>, uploads: &Vec<TerrainUpload>) -> (r: Option<
    TransferError,
>)
    requires
        assignments@.len() == uploads@.len(),
    ensures
        r == upload_fault(assignments@, uploads@, uploads@.len()),
{
    let mut k: usize = 0;
    while k < uploads.len()
        invariant
            k <= uploads@.len(),
            assignments@.len() == uploads@.len(),
            upload_fault(assignments@, uploads@, k as nat) is None,
        decreases uploads@.len() - k,
    {
        let a = assignments[k];
        let u = &uploads[k];
        let same_place = match (a.global_region, u.global_region) {
            (Some(x), Some(y)) => x.x == y.x && x.z == y.z,
            (None, None) => true,
            _ => false,
        };
        assert(same_place == (a.global_region == u.global_region));
        if !(a.slot == u.slot && a.region_id == u.region_id && same_place) {
            proof {
                lemma_fault_stays(assignments@, uploads@, (k + 1) as nat, uploads@.len());
            }
            return Some(TransferError::UploadAssignmentMismatch);
        }
        if u.tile_region_id != u.region_id {
            proof {
                lemma_fault_stays(assignments@, uploads@, (k + 1) as nat, uploads@.len());
            }
            return Some(TransferError::UploadTileMismatch);
        }
        k += 1;
    }
    None
}

/// Releases the evicted slots in order, stopping at the first that is not
/// shader-readable.
fn release_in_order(readable: &mut Vec<bool>, reused: &Vec<u32>) -> (ok: bool)
    requires
        old(readable)@.len() == TERRAIN_CACHE_CAPACITY,
        forall|i: int| 0 <= i < reused@.len() ==> #[trigger] reused@[i] < TERRAIN_CACHE_CAPACITY,
    ensures
        (final(readable)@, ok) == release_slots(old(readable)@, reused@, reused@.len()),
        final(readable)@.len() == old(readable)@.len(),
{
    let mut k: usize = 0;
    while k < reused.len()
        invariant
            k <= reused@.len(),
            forall|i: int| 0 <= i < reused@.len() ==> #[trigger] reused@[i] < TERRAIN_CACHE_CAPACITY,
            readable@.len() == TERRAIN_CACHE_CAPACITY,
            old(readable)@.len() == TERRAIN_CACHE_CAPACITY,
            release_slots(old(readable)@, reused@, k as nat) == (readable@, true),
        decreases reused@.len() - k,
    {
        let slot = reused[k] as usize;
        if !readable[slot] {
            proof {
                lemma_release_stays_failed(old(readable)@, reused@, (k + 1) as nat, reused@.len());
            }
            return false;
        }
        readable.set(slot, false);
        k += 1;
    }
    true
}

/// Once a release has failed it stays failed, with the slots unchanged.
proof fn lemma_release_stays_failed(readable: Seq<bool>, reused: Seq<u32>, j: nat, n: nat)
    requires
        j <= n,
        release_slots(readable, reused, j).1 == false,
    ensures
        release_slots(readable, reused, n) == release_slots(readable, reused, j),
    decreases n - j,
{
    if j < n {
        lemma_release_stays_failed(readable, reused, j, (n - 1) as nat);
    }
}

/// Marks the given slots shader-readable.
fn mark_in_order(readable: &mut Vec<bool>, slots: &Vec<u32>)
    requires
        old(readable)@.len() == TERRAIN_CACHE_CAPACITY,
        forall|i: int| 0 <= i < slots@.len() ==> #[trigger] slots@[i] < TERRAIN_CACHE_CAPACITY,
    ensures
        final(readable)@ == mark_readable(old(readable)@, slots@),
{
    let mut k: usize = 0;
    while k < slots.len()
        invariant
            k <= slots@.len(),
            forall|i: int| 0 <= i < slots@.len() ==> #[trigger] slots@[i] < TERRAIN_CACHE_CAPACITY,
            readable@.len() == TERRAIN_CACHE_CAPACITY,
            old(readable)@.len() == TERRAIN_CACHE_CAPACITY,
            forall|i: int| 0 <= i < readable@.len() ==> #[trigger] readable@[i] == (old(readable)@[i]
                || exists|j: int| 0 <= j < k && slots@[j] == i),
        decreases slots@.len() - k,
    {
        let slot = slots[k];
        let ghost prev = readable@;
        readable.set(slot as usize, true);
        assert forall|i: int| 0 <= i < readable@.len() implies #[trigger] readable@[i] == (old(readable)@[i]
            || exists|j: int| 0 <= j < k + 1 && slots@[j] == i) by {
            if i == slot as int {
                assert(slots@[k as int] == i);
            } else {
                assert(readable@[i] == prev[i]);
                if exists|j: int| 0 <= j < k + 1 && slots@[j] == i {
                    let j = choose|j: int| 0 <= j < k + 1 && slots@[j] == i;
                    assert(j < k);
                }
            }
        }
        k += 1;
    }
    assert forall|i: int| 0 <= i < readable@.len() implies #[trigger] readable@[i] == mark_readable(old(readable)@, slots@)[i] by {
        if exists|j: int| 0 <= j < slots@.len() && slots@[j] == i {
            let j = choose|j: int| 0 <= j < slots@.len() && slots@[j] == i;
            assert(slots@[j] == i as u32);
            assert(slots@.contains(i as u32));
        }
        if slots@.contains(i as u32) {
            let j = choose|j: int| 0 <= j < slots@.len() && slots@[j] == i as u32;
            assert(slots@[j] == i);
        }
    }
    assert(readable@ =~= mark_readable(old(readable)@, slots@));
}

fn copy_bools(values: &Vec<bool>) -> (r: Vec<bool>)
    ensures
        r@ == values@,
{
    let mut copy: Vec<bool> = Vec::new();
    let mut k: usize = 0;
    while k < values.len()
        invariant
            k <= values@.len(),
            copy@ =~= values@.take(k as int),
        decreases values@.len() - k,
    {
        copy.push(values[k]);
        k += 1;
    }
    assert(copy@ =~= values@);
    copy
}

fn copy_u32s(values: &Vec<u32>) -> (r: Vec<u32>)
    ensures
        r@ == values@,
{
    let mut copy: Vec<u32> = Vec::new();
    let mut k: usize = 0;
    while k < values.len()
        invariant
            k <= values@.len(),
            copy@ =~= values@.take(k as int),
        decreases values@.len() - k,
    {
        copy.push(values[k]);
        k += 1;
    }
    assert(copy@ =~= values@);
    copy
}

fn copy_assignments(values: &Vec<TerrainAssignment>) -> (r: Vec<TerrainAssignment>)
    ensures
        r@ == values@,
{
    let mut copy: Vec<TerrainAssignment> = Vec::new();
    let mut k: usize = 0;
    while k < values.len()
        invariant
            k <= values@.len(),
            copy@ =~= values@.take(k as int),
        decreases values@.len() - k,
    {
        copy.push(values[k]);
        k += 1;
    }
    assert(copy@ =~= values@);
    copy
}

fn slots_of_uploads(uploads: &Vec<TerrainUpload>) -> (r: Vec<u32>)
    ensures
        r@ == upload_slots(uploads@),
{
    let mut slots: Vec<u32> = Vec::new();
    let mut k: usize = 0;
    while k < uploads.len()
        invariant
            k <= uploads@.len(),
            slots@ =~= upload_slots(uploads@).take(k as int),
        decreases uploads@.len() - k,
    {
        slots.push(uploads[k].slot);
        k += 1;
    }
    assert(slots@ =~= upload_slots(uploads@));
    slots
}

/// Appends `tail` to `bytes`.
fn append_bytes(bytes: &mut Vec<u8>, tail: &Vec<u8>)
    ensures
        final(bytes)@ == old(bytes)@ + tail@,
{
    let mut k: usize = 0;
    while k < tail.len()
        invariant
            k <= tail@.len(),
            bytes@ =~= old(bytes)@ + tail@.take(k as int),
        decreases tail@.len() - k,
    {
        bytes.push(tail[k]);
        k += 1;
    }
    assert(tail@.take(tail@.len() as int) =~= tail@);
}

/// The bytes that the transaction digest covers.
fn upload_evidence_bytes(uploads: &Vec<TerrainUpload>) -> (r: Vec<u8>)
    ensures
        r@ == upload_evidence(uploads@),
{
    let mut bytes: Vec<u8> = Vec::new();
    let mut k: usize = 0;
    while k < uploads.len()
        invariant
            k <= uploads@.len(),
            bytes@ == upload_evidence(uploads@.take(k as int)),
        decreases uploads@.len() - k,
    {
        let u = &uploads[k];
        let ghost before = bytes@;
        push_u32_le(&mut bytes, u.slot);
        push_u32_le(&mut bytes, u.region_id);
        match u.global_region {
            Some(g) => {
                push_i64_le(&mut bytes, g.x);
                push_i64_le(&mut bytes, g.z);
            },
            None => {},
        }
        append_bytes(&mut bytes, &u.payload);
        let digest_text = u.sha256.as_str().as_bytes_vec();
        append_bytes(&mut bytes, &digest_text);
        proof {
            let taken = uploads@.take(k + 1);
            assert(taken.drop_last() =~= uploads@.take(k as int));
            assert(taken.last() == uploads@[k as int]);
            assert(bytes@ =~= before + upload_bytes(uploads@[k as int]));
        }
        k += 1;
    }
    assert(uploads@.take(uploads@.len() as int) =~= uploads@);
    bytes
}

} // verus!
