//! The device store model: the latest telemetry per device, most
//! recently seen first, plus the durable `cloud_enabled` flag.  The
//! hub owns one store; a durable mirror of it is kept outside the
//! library, and reconstructing memory from that mirror goes through
//! the same operations modeled here.

use vstd::prelude::*;
use crate::clock::now_rfc3339;
use crate::sequtil::{distinct_keys, lemma_filter_distinct_keys, lemma_filter_elems};
use crate::strutil::str_eq;
use crate::telemetry::{DeviceTelemetry, TelemetryView};

verus! {

/// One stored row: a telemetry record and when it was last saved.
pub struct StoredDevice {
    pub telemetry: DeviceTelemetry,
    pub last_seen: String,
}

/// The mathematical value of a [`StoredDevice`].
pub struct RowView {
    pub telemetry: TelemetryView,
    pub last_seen: Seq<char>,
}

impl View for StoredDevice {
    type V = RowView;

    open spec fn view(&self) -> RowView {
        RowView { telemetry: self.telemetry@, last_seen: self.last_seen@ }
    }
}

impl Clone for StoredDevice {
    /// Field-for-field copy.
    fn clone(&self) -> (r: Self)
        ensures
            r@ == self@,
    {
        StoredDevice { telemetry: self.telemetry.clone(), last_seen: self.last_seen.clone() }
    }
}

/// The views of a row vector.
pub open spec fn rows_view(s: Seq<StoredDevice>) -> Seq<RowView> {
    s.map(|i: int, r: StoredDevice| r@)
}

/// The key a row is stored under.
pub open spec fn row_key(r: RowView) -> Seq<char> {
    r.telemetry.device_id
}

/// The mathematical value of a [`DeviceStore`].
pub struct StoreView {
    pub rows: Seq<RowView>,
    pub cloud_enabled: Option<bool>,
}

/// The device store: rows keyed by `device_id`, most recently saved
/// first, and the `cloud_enabled` flag (unset until first written).
pub struct DeviceStore {
    rows: Vec<StoredDevice>,
    cloud_enabled: Option<bool>,
}

impl View for DeviceStore {
    type V = StoreView;

    closed spec fn view(&self) -> StoreView {
        StoreView { rows: rows_view(self.rows@), cloud_enabled: self.cloud_enabled }
    }
}

/// Schema invariant: `device_id` is the sole key; no two rows share
/// it.
pub open spec fn store_wf(s: StoreView) -> bool {
    distinct_keys(s.rows, |r: RowView| row_key(r))
}

/// Saving drops any row under the same id and puts the new row first.
pub open spec fn spec_save(s: StoreView, t: TelemetryView, now: Seq<char>) -> StoreView {
    StoreView {
        rows: seq![RowView { telemetry: t, last_seen: now }] + s.rows.filter(
            |r: RowView| row_key(r) != t.device_id,
        ),
        cloud_enabled: s.cloud_enabled,
    }
}

/// The full snapshot: every stored record, most recently seen first.
pub open spec fn spec_load(s: StoreView) -> Seq<TelemetryView> {
    s.rows.map(|i: int, r: RowView| r.telemetry)
}

/// The durable flag, defaulting to true when never written.
pub open spec fn spec_cloud_enabled(s: StoreView) -> bool {
    match s.cloud_enabled {
        Some(b) => b,
        None => true,
    }
}

/// The first record under `id`, if any.
pub open spec fn spec_find_device(ds: Seq<TelemetryView>, id: Seq<char>) -> Option<TelemetryView>
    decreases ds.len(),
{
    if ds.len() == 0 {
        None
    } else if ds[0].device_id == id {
        Some(ds[0])
    } else {
        spec_find_device(ds.subrange(1, ds.len() as int), id)
    }
}

impl DeviceStore {
    /// An empty store: no rows, flag never written.
    pub fn new() -> (r: Self)
        ensures
            r@.rows == Seq::<RowView>::empty(),
            r@.cloud_enabled is None,
            store_wf(r@),
    {
        let r = DeviceStore { rows: Vec::new(), cloud_enabled: None };
        proof {
            assert(rows_view(r.rows@) =~= Seq::<RowView>::empty());
        }
        r
    }

    /// Durable upsert keyed by `device_id`: the new record replaces
    /// any earlier one under the same id and becomes the most
    /// recently seen, stamped with the current time.
    pub fn save_device(&mut self, t: &DeviceTelemetry)
        ensures
            exists|now: Seq<char>| final(self)@ == spec_save(old(self)@, t@, now),
            store_wf(old(self)@) ==> store_wf(final(self)@),
    {
        let now = now_rfc3339();
        let ghost nowv = now@;
        let ghost r0 = rows_view(self.rows@);
        let ghost pred = |r: RowView| row_key(r) != t@.device_id;
        let mut out: Vec<StoredDevice> = Vec::new();
        out.push(StoredDevice { telemetry: t.clone(), last_seen: now });
        let ghost newrow = RowView { telemetry: t@, last_seen: nowv };
        proof {
            reveal(Seq::filter);
            assert(rows_view(out@) =~= seq![newrow] + r0.subrange(0, 0).filter(pred));
        }
        let n = self.rows.len();
        let mut i: usize = 0;
        while i < n
            invariant
                0 <= i <= n,
                n == self.rows@.len(),
                r0 == rows_view(self.rows@),
                newrow == (RowView { telemetry: t@, last_seen: nowv }),
                pred == (|r: RowView| row_key(r) != t@.device_id),
                rows_view(out@) == seq![newrow] + r0.subrange(0, i as int).filter(pred),
            decreases n - i,
        {
            let ghost prefix = r0.subrange(0, i as int);
            let ghost prefix1 = r0.subrange(0, i as int + 1);
            proof {
                reveal(Seq::filter);
                assert(prefix1.drop_last() =~= prefix);
                assert(prefix1.last() == r0[i as int]);
            }
            let same = str_eq(self.rows[i].telemetry.device_id.as_str(), t.device_id.as_str());
            if !same {
                let row = self.rows[i].clone();
                out.push(row);
                proof {
                    assert(rows_view(out@) =~= (seq![newrow] + prefix.filter(pred)).push(
                        r0[i as int],
                    ));
                    assert(seq![newrow] + prefix1.filter(pred) =~= (seq![newrow] + prefix.filter(
                        pred,
                    )).push(r0[i as int]));
                }
            } else {
                proof {
                    assert(prefix1.filter(pred) == prefix.filter(pred));
                }
            }
            i += 1;
        }
        proof {
            assert(r0.subrange(0, n as int) =~= r0);
        }
        self.rows = out;
        proof {
            assert(final(self)@ == spec_save(old(self)@, t@, nowv));
            if store_wf(old(self)@) {
                lemma_filter_distinct_keys(r0, pred, |r: RowView| row_key(r));
                lemma_filter_elems(r0, pred);
                let rows = final(self)@.rows;
                assert forall|a: int, b: int| 0 <= a < b < rows.len() implies row_key(rows[a])
                    != row_key(rows[b]) by {
                    if a == 0 {
                        assert(rows[b] == r0.filter(pred)[b - 1]);
                        assert(pred(r0.filter(pred)[b - 1])) by {
                            r0.lemma_filter_pred(pred, b - 1);
                        }
                    } else {
                        assert(rows[a] == r0.filter(pred)[a - 1]);
                        assert(rows[b] == r0.filter(pred)[b - 1]);
                        assert(distinct_keys(r0.filter(pred), |r: RowView| row_key(r)));
                    }
                }
            }
        }
    }

    /// The full snapshot, most recently seen first.
    pub fn load_devices(&self) -> (r: Vec<DeviceTelemetry>)
        ensures
            r@.map(|i: int, d: DeviceTelemetry| d@) == spec_load(self@),
    {
        let n = self.rows.len();
        let mut out: Vec<DeviceTelemetry> = Vec::new();
        let mut i: usize = 0;
        while i < n
            invariant
                0 <= i <= n,
                n == self.rows@.len(),
                out@.len() == i,
                forall|k: int|
                    0 <= k < i ==> #[trigger] out@[k]@ == self.rows@[k]@.telemetry,
            decreases n - i,
        {
            out.push(self.rows[i].telemetry.clone());
            i += 1;
        }
        proof {
            assert(out@.map(|i: int, d: DeviceTelemetry| d@) =~= spec_load(self@));
        }
        out
    }

    /// The durable flag; true when it was never written.
    pub fn get_cloud_enabled(&self) -> (r: bool)
        ensures
            r == spec_cloud_enabled(self@),
    {
        match self.cloud_enabled {
            Some(b) => b,
            None => true,
        }
    }

    /// Durably record the desired cloud mode.
    pub fn set_cloud_enabled(&mut self, enabled: bool)
        ensures
            final(self)@.cloud_enabled == Some(enabled),
            final(self)@.rows == old(self)@.rows,
    {
        self.cloud_enabled = Some(enabled);
    }

    /// Flip the durable flag; the new value is returned and recorded
    /// before the call returns.
    pub fn toggle_cloud_enabled(&mut self) -> (r: bool)
        ensures
            r == !spec_cloud_enabled(old(self)@),
            final(self)@.cloud_enabled == Some(r),
            final(self)@.rows == old(self)@.rows,
    {
        let b = !self.get_cloud_enabled();
        self.set_cloud_enabled(b);
        b
    }
}

/// Saving then loading yields the saved record unchanged under its
/// device id, whatever the store held before.
pub proof fn lemma_save_then_load(s: StoreView, t: TelemetryView, now: Seq<char>)
    ensures
        spec_find_device(spec_load(spec_save(s, t, now)), t.device_id) == Some(t),
{
    let ds = spec_load(spec_save(s, t, now));
    assert(ds[0] == t);
}

/// Toggling the durable flag twice restores its original value, and
/// never touches the stored rows.
pub proof fn lemma_toggle_twice(s: StoreView)
    ensures
        ({
            let once = StoreView { rows: s.rows, cloud_enabled: Some(!spec_cloud_enabled(s)) };
            let twice = StoreView {
                rows: once.rows,
                cloud_enabled: Some(!spec_cloud_enabled(once)),
            };
            spec_cloud_enabled(twice) == spec_cloud_enabled(s) && twice.rows == s.rows
        }),
{
}

} // verus!
