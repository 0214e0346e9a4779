//! The telemetry ingestion path: each frame arriving on the telemetry
//! topic is parsed; a valid record is saved durably and applied to the
//! live snapshot, then forwarded for local fan-out; a malformed frame
//! is discarded and changes nothing.  Persistence and live relay are
//! decoupled: the snapshot reflects the record whatever became of the
//! durable write.

use vstd::prelude::*;
use crate::hubstate::{hub_wf, HubState};
use crate::store::{spec_save, DeviceStore};
use crate::telemetry::{devices_view, parse_telemetry, spec_parse_telemetry};

verus! {

/// Ingest one frame from the telemetry topic.  Returns whether the
/// frame carried a valid record and should be forwarded to the local
/// fan-out.
pub fn ingest_telemetry(payload: &str, state: &mut HubState, store: &mut DeviceStore) -> (r:
    bool)
    requires
        hub_wf(old(state)),
    ensures
        hub_wf(final(state)),
        r == (spec_parse_telemetry(payload@) is Some),
        final(state).messages@ == old(state).messages@,
        final(state).cloud_enabled == old(state).cloud_enabled,
        final(state).service_name@ == old(state).service_name@,
        match spec_parse_telemetry(payload@) {
            Some(tv) => {
                &&& exists|now: Seq<char>| final(store)@ == spec_save(old(store)@, tv, now)
                &&& (exists|j: int|
                    0 <= j < old(state).devices@.len() && #[trigger] old(
                        state,
                    ).devices@[j]@.device_id == tv.device_id) ==> exists|j: int|
                    #![auto]
                    0 <= j < old(state).devices@.len() && old(state).devices@[j]@.device_id
                        == tv.device_id && devices_view(final(state).devices@) == devices_view(
                        old(state).devices@,
                    ).update(j, tv)
                &&& (forall|j: int|
                    0 <= j < old(state).devices@.len() ==> #[trigger] old(
                        state,
                    ).devices@[j]@.device_id != tv.device_id) ==> devices_view(
                    final(state).devices@,
                ) == devices_view(old(state).devices@).push(tv)
            },
            None => {
                &&& *final(state) == *old(state)
                &&& final(store)@ == old(store)@
            },
        },
{
    match parse_telemetry(payload) {
        Some(t) => {
            store.save_device(&t);
            let ghost tv = t@;
            let ghost before = state.devices@;
            state.update_device(t);
            proof {
                if exists|j: int|
                    0 <= j < before.len() && #[trigger] before[j]@.device_id == tv.device_id {
                    let j = choose|j: int|
                        #![auto]
                        0 <= j < before.len() && before[j]@.device_id == tv.device_id
                            && state.devices@ == before.update(j, t);
                    assert(devices_view(state.devices@) =~= devices_view(before).update(j, tv));
                } else {
                    assert(forall|j: int|
                        0 <= j < before.len() ==> #[trigger] before[j]@.device_id
                            != tv.device_id);
                    assert(state.devices@ == before.push(t));
                    assert(devices_view(state.devices@) =~= devices_view(before).push(tv));
                }
            }
            true
        },
        None => false,
    }
}

} // verus!
