use vstd::prelude::*;

use crate::address::{addressed_at, local_of, AddressedRegion, GlobalRegionConfig};
use crate::digest::{le_i64, le_u32, push_i64_le, push_u32_le, sha256_hex, sha256_hex_of};
use crate::load::{ConfigError, LoadConfig};
use crate::resident::{active_region_ids, window_region_id, ACTIVE_REGION_CAPACITY};
use crate::world::RegionCoord;

verus! {

/// The regions of an optional global window, in window order.
pub fn addressed(config: Option<GlobalRegionConfig>) -> (r: Result<
    Option<Vec<AddressedRegion>>,
    ConfigError,
>)
    requires
        config matches Some(c) ==> c.wf(),
    ensures
        config is None ==> r matches Ok(None),
        config matches Some(c) ==> {
            let side = local_of(c).side();
            &&& r is Ok <==> side * side <= ACTIVE_REGION_CAPACITY
            &&& r matches Err(e) ==> e == ConfigError::ActiveCapacityExceeded
            &&& r matches Ok(v) ==> v matches Some(regions) && regions@.len() == side * side
                && forall|k: int| 0 <= k < regions@.len() ==> regions@[k] == addressed_at(c, k)
        },
{
    match config {
        None => Ok(None),
        Some(c) => match c.addressed_regions() {
            Ok(regions) => Ok(Some(regions)),
            Err(e) => Err(e),
        },
    }
}

/// The logical region ids of a composition: the local ids of the addressed
/// regions when there are any, else the ids of the local window.
pub fn local_ids(addressed: Option<&[AddressedRegion]>, config: LoadConfig) -> (r: Result<Vec<u32>, ConfigError>)
    requires
        config.wf(),
    ensures
        addressed matches Some(regions) ==> r matches Ok(ids) && ids@.len() == regions@.len()
            && forall|k: int| 0 <= k < ids@.len() ==> ids@[k] == regions@[k].local_region_id,
        addressed is None ==> {
            &&& r is Ok <==> config.side() * config.side() <= ACTIVE_REGION_CAPACITY
            &&& r matches Err(e) ==> e == ConfigError::ActiveCapacityExceeded
            &&& r matches Ok(ids) ==> ids@.len() == config.side() * config.side() && forall|k: int|
                0 <= k < ids@.len() ==> ids@[k] == window_region_id(config, k)
        },
{
    match addressed {
        Some(regions) => {
            let mut ids: Vec<u32> = Vec::new();
            let mut k: usize = 0;
            while k < regions.len()
                invariant
                    k <= regions@.len(),
                    ids@.len() == k,
                    forall|j: int| 0 <= j < k ==> ids@[j] == regions@[j].local_region_id,
                decreases regions@.len() - k,
            {
                ids.push(regions[k].local_region_id);
                k += 1;
            }
            Ok(ids)
        },
        None => active_region_ids(config),
    }
}

/// The bytes that the global evidence digest covers: each region's global
/// x and z and its local id, little-endian.
pub open spec fn evidence_bytes(regions: Seq<AddressedRegion>) -> Seq<u8>
    decreases regions.len(),
{
    if regions.len() == 0 {
        Seq::empty()
    } else {
        let last = regions.last();
        evidence_bytes(regions.drop_last()) + le_i64(last.global_region.x) + le_i64(
            last.global_region.z,
        ) + le_u32(last.local_region_id)
    }
}

/// The global regions of a composition and the digest of its global
/// mapping; nothing without addressed regions.
pub fn evidence(addressed: Option<&[AddressedRegion]>) -> (r: (Option<Vec<RegionCoord>>, Option<String>))
    ensures
        addressed is None ==> r.0 is None && r.1 is None,
        addressed matches Some(regions) ==> {
            &&& r.0 matches Some(globals) && globals@.len() == regions@.len() && forall|k: int|
                0 <= k < globals@.len() ==> globals@[k] == regions@[k].global_region
            &&& r.1 matches Some(digest) && digest@ == sha256_hex(evidence_bytes(regions@))
        },
{
    let regions = match addressed {
        Some(regions) => regions,
        None => return (None, None),
    };
    let mut bytes: Vec<u8> = Vec::new();
    let mut globals: Vec<RegionCoord> = Vec::new();
    let mut k: usize = 0;
    while k < regions.len()
        invariant
            k <= regions@.len(),
            globals@.len() == k,
            forall|j: int| 0 <= j < k ==> globals@[j] == regions@[j].global_region,
            bytes@ == evidence_bytes(regions@.take(k as int)),
        decreases regions@.len() - k,
    {
        let region = regions[k];
        globals.push(region.global_region);
        push_i64_le(&mut bytes, region.global_region.x);
        push_i64_le(&mut bytes, region.global_region.z);
        push_u32_le(&mut bytes, region.local_region_id);
        proof {
            assert(regions@.take(k + 1).drop_last() =~= regions@.take(k as int));
        }
        k += 1;
    }
    assert(regions@.take(regions@.len() as int) =~= regions@);
    let digest = sha256_hex_of(&bytes);
    (Some(globals), Some(digest))
}

} // verus!
