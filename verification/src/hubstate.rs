//! The in-memory snapshot behind the dashboard: latest telemetry per
//! device, a bounded rolling log of relayed messages, and the cloud
//! mode flag.  Readers of this snapshot always see the latest
//! accepted telemetry, whatever became of the durable store.

use vstd::prelude::*;
use vstd::string::*;
use crate::strutil::str_eq;
use crate::telemetry::{devices_view, DeviceTelemetry, TelemetryView};

verus! {

/// How many messages the rolling log keeps.
pub const MESSAGE_LOG_CAPACITY: usize = 100;

/// The hub's (or cloud mirror's) live state.
pub struct HubState {
    pub devices: Vec<DeviceTelemetry>,
    pub messages: Vec<String>,
    pub cloud_enabled: bool,
    pub service_name: String,
}

/// No two records share a device id.
pub open spec fn devices_distinct(ds: Seq<TelemetryView>) -> bool {
    forall|i: int, j: int|
        0 <= i < j < ds.len() ==> #[trigger] ds[i].device_id != #[trigger] ds[j].device_id
}

/// Well-formedness: device ids are unique and the message log holds
/// its capacity bound.
pub open spec fn hub_wf(s: &HubState) -> bool {
    &&& devices_distinct(devices_view(s.devices@))
    &&& s.messages@.len() <= MESSAGE_LOG_CAPACITY as int
}

impl HubState {
    /// A fresh snapshot: no devices, no messages, cloud disabled.
    pub fn new(service_name: &str) -> (r: Self)
        ensures
            r.devices@ == Seq::<DeviceTelemetry>::empty(),
            r.messages@ == Seq::<String>::empty(),
            r.cloud_enabled == false,
            r.service_name@ == service_name@,
            hub_wf(&r),
    {
        HubState {
            devices: Vec::new(),
            messages: Vec::new(),
            cloud_enabled: false,
            service_name: String::from_str(service_name),
        }
    }

    /// Last-write-wins upsert keyed by `device_id`: an existing entry
    /// for the same id is replaced in place, a new id is appended.
    pub fn update_device(&mut self, telemetry: DeviceTelemetry)
        requires
            hub_wf(old(self)),
        ensures
            hub_wf(final(self)),
            final(self).messages@ == old(self).messages@,
            final(self).cloud_enabled == old(self).cloud_enabled,
            final(self).service_name@ == old(self).service_name@,
            (exists|j: int|
                0 <= j < old(self).devices@.len() && #[trigger] old(self).devices@[j]@.device_id
                    == telemetry@.device_id) ==> exists|j: int|
                0 <= j < old(self).devices@.len() && #[trigger] old(self).devices@[j]@.device_id
                    == telemetry@.device_id && final(self).devices@ == old(self).devices@.update(
                    j,
                    telemetry,
                ),
            (forall|j: int|
                0 <= j < old(self).devices@.len() ==> #[trigger] old(
                    self,
                ).devices@[j]@.device_id != telemetry@.device_id) ==> final(self).devices@ == old(
                self,
            ).devices@.push(telemetry),
    {
        let n = self.devices.len();
        let mut i: usize = 0;
        while i < n
            invariant
                0 <= i <= n,
                n == self.devices@.len(),
                *self == *old(self),
                hub_wf(old(self)),
                forall|j: int|
                    0 <= j < i ==> #[trigger] self.devices@[j]@.device_id
                        != telemetry@.device_id,
            decreases n - i,
        {
            if str_eq(self.devices[i].device_id.as_str(), telemetry.device_id.as_str()) {
                let ghost before = self.devices@;
                self.devices.remove(i);
                self.devices.insert(i, telemetry);
                proof {
                    assert(self.devices@ =~= before.update(i as int, telemetry));
                    let dvb = devices_view(before);
                    let dva = devices_view(self.devices@);
                    assert(forall|k: int|
                        0 <= k < dva.len() ==> #[trigger] dva[k].device_id == dvb[k].device_id);
                    assert forall|a: int, b: int|
                        0 <= a < b < dva.len() implies #[trigger] dva[a].device_id
                        != #[trigger] dva[b].device_id by {
                        assert(dvb[a].device_id != dvb[b].device_id);
                    }
                    assert(old(self).devices@[i as int]@.device_id == telemetry@.device_id);
                    assert(self.devices@ == old(self).devices@.update(i as int, telemetry));
                }
                return ;
            }
            i += 1;
        }
        let ghost before = self.devices@;
        self.devices.push(telemetry);
        proof {
            let dvb = devices_view(before);
            let dva = devices_view(self.devices@);
            assert(dva =~= dvb.push(telemetry@));
            assert forall|a: int, b: int|
                0 <= a < b < dva.len() implies #[trigger] dva[a].device_id
                != #[trigger] dva[b].device_id by {
                if b < dvb.len() {
                    assert(dvb[a].device_id != dvb[b].device_id);
                } else {
                    assert(dva[b] == telemetry@);
                    assert(dva[a] == before[a]@);
                }
            }
        }
    }

    /// Append to the rolling log, evicting the oldest entry once the
    /// log is full.  Insertion order is preserved for display.
    pub fn add_message(&mut self, message: String)
        requires
            hub_wf(old(self)),
        ensures
            hub_wf(final(self)),
            final(self).devices@ == old(self).devices@,
            final(self).cloud_enabled == old(self).cloud_enabled,
            final(self).service_name@ == old(self).service_name@,
            final(self).messages@ == if old(self).messages@.len() < MESSAGE_LOG_CAPACITY as int {
                old(self).messages@.push(message)
            } else {
                old(self).messages@.subrange(1, old(self).messages@.len() as int).push(message)
            },
    {
        self.messages.push(message);
        if self.messages.len() > MESSAGE_LOG_CAPACITY {
            self.messages.remove(0);
            proof {
                assert(final(self).messages@ =~= old(self).messages@.subrange(
                    1,
                    old(self).messages@.len() as int,
                ).push(message));
            }
        }
    }

    /// Flip the desired cloud mode.
    pub fn toggle_cloud(&mut self)
        ensures
            final(self).cloud_enabled == !old(self).cloud_enabled,
            final(self).devices@ == old(self).devices@,
            final(self).messages@ == old(self).messages@,
            final(self).service_name@ == old(self).service_name@,
            hub_wf(old(self)) ==> hub_wf(final(self)),
    {
        self.cloud_enabled = !self.cloud_enabled;
    }
}

} // verus!
