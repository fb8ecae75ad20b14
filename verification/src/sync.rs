//! Sync engine: aligns playback across several output devices.
//!
//! Each device has an intrinsic latency `L_i`. The common target latency
//! is `L = max(L_i) + margin`, and every device is delayed by `L - L_i`,
//! so that a sample with a given capture time reaches every device at the
//! same wall-clock moment. Latencies are durations in nanoseconds.

use vstd::prelude::*;
use crate::core_types::{DeviceId, Error};
use crate::table::DeviceTable;

verus! {

/// Safety margin added on top of the slowest device: 20 ms, room for the
/// jitter of audio callbacks.
pub const MIN_SAFETY_MARGIN: u128 = 20_000_000;

/// Target latency before any device is known: 200 ms, enough for
/// Bluetooth SBC.
pub const DEFAULT_TARGET_LATENCY: u128 = 200_000_000;

/// Drift above which devices count as out of sync, in milliseconds.
pub const DRIFT_THRESHOLD_MS: u64 = 50;

/// The longest duration that `std::time::Duration` holds, in nanoseconds.
pub const MAX_DURATION_NANOS: u128 = 18_446_744_073_709_551_615_999_999_999;

/// What the sync engine keeps per device.
#[derive(Debug, Clone, Copy)]
pub struct DeviceSyncParams {
    /// Measured or user-set latency of the device itself, in nanoseconds.
    pub intrinsic_latency: u128,
    /// Artificial delay that aligns the device to the common target, in
    /// nanoseconds. Computed, never set.
    pub compensation_delay: u128,
    /// The device's current sample rate.
    pub sample_rate: u32,
    /// Time of the last push into the device's ring buffer, in
    /// microseconds since the UNIX epoch; 0 means "not pushed yet".
    pub last_push_micros: u64,
}

/// Drift state for the UI.
#[derive(Debug, Clone, Copy)]
pub struct DriftSnapshot {
    pub drift_ms: u32,
    pub active_count: u32,
    pub in_sync: bool,
}

/// A latency the engine can hold: adding the margin stays a valid
/// duration.
pub open spec fn latency_fits(l: u128) -> bool {
    l + MIN_SAFETY_MARGIN <= MAX_DURATION_NANOS
}

/// The compensation of every device lines it up with `target`, and
/// `target` is the slowest intrinsic latency plus the margin.
pub open spec fn aligned(target: u128, m: Map<Seq<char>, DeviceSyncParams>) -> bool {
    &&& forall|k: Seq<char>| #[trigger] m.contains_key(k) ==> m[k].intrinsic_latency + MIN_SAFETY_MARGIN <= target
    &&& forall|k: Seq<char>| #[trigger] m.contains_key(k) ==> m[k].compensation_delay + m[k].intrinsic_latency == target
    &&& (forall|k: Seq<char>| !#[trigger] m.contains_key(k)) ==> target == MIN_SAFETY_MARGIN
    &&& (exists|k: Seq<char>| #[trigger] m.contains_key(k)) ==> exists|k: Seq<char>|
        #[trigger] m.contains_key(k) && m[k].intrinsic_latency + MIN_SAFETY_MARGIN == target
}

/// `b` is `a` with at most its compensation changed.
pub open spec fn keeps_settings(a: DeviceSyncParams, b: DeviceSyncParams) -> bool {
    &&& a.intrinsic_latency == b.intrinsic_latency
    &&& a.sample_rate == b.sample_rate
    &&& a.last_push_micros == b.last_push_micros
}

/// Devices that have pushed audio at least once.
pub open spec fn active_ids(m: Map<Seq<char>, DeviceSyncParams>) -> Set<Seq<char>> {
    m.dom().filter(|k: Seq<char>| m[k].last_push_micros != 0)
}

/// Sum of the last push times of the listed devices.
pub open spec fn push_sum(ids: Seq<Seq<char>>, m: Map<Seq<char>, DeviceSyncParams>) -> int
    decreases ids.len(),
{
    if ids.len() == 0 {
        0
    } else {
        push_sum(ids.drop_last(), m) + m[ids.last()].last_push_micros
    }
}

/// `v` saturated into the `i64` range.
pub open spec fn clamp_i64(v: int) -> i64 {
    if v < i64::MIN {
        i64::MIN
    } else if v > i64::MAX {
        i64::MAX
    } else {
        v as i64
    }
}

/// Sync engine state: the target latency and the devices' parameters.
pub struct SyncEngine {
    target_latency: u128,
    safety_margin: u128,
    devices: DeviceTable<DeviceSyncParams>,
}

impl SyncEngine {
    /// Current target latency, in nanoseconds.
    pub closed spec fn target(&self) -> u128 {
        self.target_latency
    }

    /// The devices and their parameters, by id.
    pub closed spec fn device_map(&self) -> Map<Seq<char>, DeviceSyncParams> {
        self.devices@
    }

    /// The engine's invariant: the margin is fixed, every latency fits,
    /// and the target and compensations are aligned (or nothing was ever
    /// computed yet and the default target stands).
    pub closed spec fn wf(&self) -> bool {
        &&& self.devices.wf()
        &&& self.safety_margin == MIN_SAFETY_MARGIN
        &&& forall|k: Seq<char>| #[trigger] self.devices@.contains_key(k) ==> latency_fits(self.devices@[k].intrinsic_latency)
        &&& (aligned(self.target_latency, self.devices@) || (self.devices@ == Map::<Seq<char>, DeviceSyncParams>::empty()
            && self.target_latency == DEFAULT_TARGET_LATENCY))
    }

    /// A new engine with no devices and the default target.
    pub fn new() -> (r: Self)
        ensures
            r.wf(),
            r.device_map() == Map::<Seq<char>, DeviceSyncParams>::empty(),
            r.target() == DEFAULT_TARGET_LATENCY,
    {
        SyncEngine {
            target_latency: DEFAULT_TARGET_LATENCY,
            safety_margin: MIN_SAFETY_MARGIN,
            devices: DeviceTable::new(),
        }
    }

    /// Recomputes the target latency and every compensation.
    fn recalculate(&mut self)
        requires
            old(self).devices.wf(),
            old(self).safety_margin == MIN_SAFETY_MARGIN,
            forall|k: Seq<char>| #[trigger] old(self).devices@.contains_key(k) ==> latency_fits(old(self).devices@[k].intrinsic_latency),
        ensures
            final(self).wf(),
            final(self).devices@.dom() == old(self).devices@.dom(),
            forall|k: Seq<char>| #[trigger] old(self).devices@.contains_key(k) ==> keeps_settings(old(self).devices@[k], final(self).devices@[k]),
            aligned(final(self).target_latency, final(self).devices@),
    {
        let ghost pre = self.devices;
        let n = self.devices.len();
        proof {
            pre.lemma_dom();
        }
        let mut max_intrinsic: u128 = 0;
        let mut i: usize = 0;
        while i < n
            invariant
                self.devices == pre,
                pre.wf(),
                n == pre.size(),
                i <= n,
                forall|k: Seq<char>| #[trigger] pre@.contains_key(k) ==> latency_fits(pre@[k].intrinsic_latency),
                forall|j: int| 0 <= j < i ==> #[trigger] pre.values()[j].intrinsic_latency <= max_intrinsic,
                i == 0 ==> max_intrinsic == 0,
                i > 0 ==> exists|j: int| 0 <= j < i && #[trigger] pre.values()[j].intrinsic_latency == max_intrinsic,
            decreases n - i,
        {
            let p = *self.devices.value_at(i);
            if p.intrinsic_latency > max_intrinsic {
                max_intrinsic = p.intrinsic_latency;
            }
            assert(pre.values()[i as int].intrinsic_latency <= max_intrinsic);
            i = i + 1;
        }
        proof {
            if n > 0 {
                let j = choose|j: int| 0 <= j < n && #[trigger] pre.values()[j].intrinsic_latency == max_intrinsic;
                pre.lemma_index(j);
                assert(latency_fits(pre@[pre.keys()[j]].intrinsic_latency));
            }
        }
        proof {
            pre.lemma_lens();
        }
        let target = max_intrinsic + self.safety_margin;
        self.target_latency = target;
        let mut i: usize = 0;
        while i < n
            invariant
                self.devices.wf(),
                pre.wf(),
                n == pre.size(),
                self.devices.size() == n,
                self.devices.values().len() == n,
                pre.values().len() == n,
                self.devices.keys() == pre.keys(),
                i <= n,
                self.target_latency == target,
                self.safety_margin == MIN_SAFETY_MARGIN,
                target == max_intrinsic + MIN_SAFETY_MARGIN,
                forall|j: int| 0 <= j < n ==> #[trigger] pre.values()[j].intrinsic_latency <= max_intrinsic,
                forall|j: int| 0 <= j < n ==> keeps_settings(pre.values()[j], #[trigger] self.devices.values()[j]),
                forall|j: int| 0 <= j < i ==> #[trigger] self.devices.values()[j].compensation_delay == target - pre.values()[j].intrinsic_latency,
            decreases n - i,
        {
            let p = *self.devices.value_at(i);
            assert(p == self.devices.values()[i as int]);
            let q = DeviceSyncParams {
                intrinsic_latency: p.intrinsic_latency,
                compensation_delay: target - p.intrinsic_latency,
                sample_rate: p.sample_rate,
                last_push_micros: p.last_push_micros,
            };
            self.devices.set_value_at(i, q);
            i = i + 1;
        }
        proof {
            let post = self.devices;
            post.lemma_dom();
            pre.lemma_dom();
            assert(post@.dom() =~= pre@.dom());
            assert forall|k: Seq<char>| #[trigger] pre@.contains_key(k) implies keeps_settings(pre@[k], post@[k])
                && post@[k].compensation_delay + post@[k].intrinsic_latency == target
                && post@[k].intrinsic_latency + MIN_SAFETY_MARGIN <= target by {
                let j = choose|j: int| 0 <= j < pre.size() && pre.keys()[j] == k;
                pre.lemma_index(j);
                post.lemma_index(j);
                assert(keeps_settings(pre.values()[j], post.values()[j]));
            }
            if exists|k: Seq<char>| #[trigger] post@.contains_key(k) {
                let k0 = choose|k: Seq<char>| #[trigger] post@.contains_key(k);
                let j0 = choose|j: int| 0 <= j < post.size() && post.keys()[j] == k0;
                assert(n > 0);
                let j = choose|j: int| 0 <= j < n && #[trigger] pre.values()[j].intrinsic_latency == max_intrinsic;
                pre.lemma_index(j);
                post.lemma_index(j);
                let kj = pre.keys()[j];
                assert(post@.contains_key(kj));
                assert(post@[kj].intrinsic_latency + MIN_SAFETY_MARGIN == target);
            }
            if forall|k: Seq<char>| !#[trigger] post@.contains_key(k) {
                if n > 0 {
                    post.lemma_index(0);
                    assert(post@.contains_key(post.keys()[0]));
                }
                assert(n == 0);
                assert(max_intrinsic == 0);
            }
            assert(aligned(target, post@));
        }
    }

    /// Adds a device (or replaces the one with the same id) with a known
    /// latency and recomputes every compensation.
    pub fn add_device(&mut self, id: DeviceId, intrinsic_latency: u128, sample_rate: u32)
        requires
            old(self).wf(),
            latency_fits(intrinsic_latency),
        ensures
            final(self).wf(),
            final(self).device_map().dom() == old(self).device_map().dom().insert(id@),
            final(self).device_map()[id@].intrinsic_latency == intrinsic_latency,
            final(self).device_map()[id@].sample_rate == sample_rate,
            final(self).device_map()[id@].last_push_micros == 0,
            forall|k: Seq<char>| #[trigger] old(self).device_map().contains_key(k) && k != id@ ==> keeps_settings(
                old(self).device_map()[k],
                final(self).device_map()[k],
            ),
            aligned(final(self).target(), final(self).device_map()),
    {
        let ghost pre = self.devices@;
        let ghost k = id@;
        let params = DeviceSyncParams {
            intrinsic_latency,
            compensation_delay: 0,
            sample_rate,
            last_push_micros: 0,
        };
        self.devices.insert(id, params);
        assert(self.devices@.dom() =~= pre.dom().insert(k));
        assert(self.devices@.contains_key(k) && self.devices@[k] == params);
        let ghost mid = self.devices@;
        self.recalculate();
        assert(keeps_settings(mid[k], self.devices@[k]));
        assert forall|kk: Seq<char>| #[trigger] pre.contains_key(kk) && kk != k implies keeps_settings(
            pre[kk],
            self.devices@[kk],
        ) by {
            assert(mid.contains_key(kk));
        }
    }

    /// Removes a device, if present, and recomputes.
    pub fn remove_device(&mut self, id: &DeviceId)
        requires
            old(self).wf(),
        ensures
            final(self).wf(),
            final(self).device_map().dom() == old(self).device_map().dom().remove(id@),
            forall|k: Seq<char>| #[trigger] final(self).device_map().contains_key(k) ==> keeps_settings(
                old(self).device_map()[k],
                final(self).device_map()[k],
            ),
            aligned(final(self).target(), final(self).device_map()),
    {
        let ghost pre = self.devices@;
        self.devices.remove(id);
        assert(self.devices@.dom() =~= pre.dom().remove(id@));
        self.recalculate();
    }

    /// Sets the same intrinsic latency on every device ("linked
    /// latencies" in the UI) and returns how many devices it touched.
    pub fn set_all_latencies(&mut self, latency: u128) -> (r: usize)
        requires
            old(self).wf(),
            latency_fits(latency),
        ensures
            final(self).wf(),
            r == old(self).device_map().dom().len(),
            final(self).device_map().dom() == old(self).device_map().dom(),
            forall|k: Seq<char>| #[trigger] final(self).device_map().contains_key(k) ==> {
                &&& final(self).device_map()[k].intrinsic_latency == latency
                &&& final(self).device_map()[k].sample_rate == old(self).device_map()[k].sample_rate
                &&& final(self).device_map()[k].last_push_micros == old(self).device_map()[k].last_push_micros
            },
            aligned(final(self).target(), final(self).device_map()),
    {
        let ghost pre = self.devices;
        let n = self.devices.len();
        proof {
            pre.lemma_lens();
        }
        let mut i: usize = 0;
        while i < n
            invariant
                self.devices.wf(),
                pre.wf(),
                n == pre.size(),
                self.devices.size() == n,
                self.devices.values().len() == n,
                pre.values().len() == n,
                self.devices.keys() == pre.keys(),
                self.safety_margin == MIN_SAFETY_MARGIN,
                latency_fits(latency),
                i <= n,
                forall|j: int| 0 <= j < i ==> #[trigger] self.devices.values()[j].intrinsic_latency == latency,
                forall|j: int| 0 <= j < n ==> #[trigger] self.devices.values()[j].sample_rate == pre.values()[j].sample_rate
                    && self.devices.values()[j].last_push_micros == pre.values()[j].last_push_micros,
                forall|j: int| i <= j < n ==> #[trigger] self.devices.values()[j] == pre.values()[j],
            decreases n - i,
        {
            let p = *self.devices.value_at(i);
            let q = DeviceSyncParams {
                intrinsic_latency: latency,
                compensation_delay: p.compensation_delay,
                sample_rate: p.sample_rate,
                last_push_micros: p.last_push_micros,
            };
            self.devices.set_value_at(i, q);
            i = i + 1;
        }
        proof {
            let mid = self.devices;
            mid.lemma_dom();
            pre.lemma_dom();
            assert(mid@.dom() =~= pre@.dom());
            assert forall|k: Seq<char>| #[trigger] mid@.contains_key(k) implies mid@[k].intrinsic_latency == latency
                && mid@[k].sample_rate == pre@[k].sample_rate
                && mid@[k].last_push_micros == pre@[k].last_push_micros by {
                let j = choose|j: int| 0 <= j < mid.size() && mid.keys()[j] == k;
                mid.lemma_index(j);
                pre.lemma_index(j);
            }
        }
        self.recalculate();
        n
    }

    /// Sets one device's intrinsic latency (the UI slider).
    pub fn set_device_latency(&mut self, id: &DeviceId, latency: u128) -> (r: Result<(), Error>)
        requires
            old(self).wf(),
            latency_fits(latency),
        ensures
            final(self).wf(),
            r is Ok <==> old(self).device_map().contains_key(id@),
            r matches Err(e) ==> e matches Error::DeviceNotFound(msg) && msg@ == id@,
            r is Err ==> *final(self) == *old(self),
            r is Ok ==> {
                &&& final(self).device_map().dom() == old(self).device_map().dom()
                &&& final(self).device_map()[id@].intrinsic_latency == latency
                &&& final(self).device_map()[id@].sample_rate == old(self).device_map()[id@].sample_rate
                &&& final(self).device_map()[id@].last_push_micros == old(self).device_map()[id@].last_push_micros
                &&& forall|k: Seq<char>| #[trigger] old(self).device_map().contains_key(k) && k != id@ ==> keeps_settings(
                    old(self).device_map()[k],
                    final(self).device_map()[k],
                )
                &&& aligned(final(self).target(), final(self).device_map())
            },
    {
        match self.devices.find(id) {
            None => Err(Error::DeviceNotFound(id.to_text())),
            Some(i) => {
                let ghost pre = self.devices;
                proof {
                    pre.lemma_index(i as int);
                }
                let p = *self.devices.value_at(i);
                let q = DeviceSyncParams {
                    intrinsic_latency: latency,
                    compensation_delay: p.compensation_delay,
                    sample_rate: p.sample_rate,
                    last_push_micros: p.last_push_micros,
                };
                self.devices.set_value_at(i, q);
                assert(self.devices@.dom() =~= pre@.dom());
                self.recalculate();
                Ok(())
            },
        }
    }

    /// Records that a device pushed audio at `micros` (UNIX epoch
    /// microseconds). Unknown ids are ignored.
    pub fn record_push(&mut self, id: &DeviceId, micros: u64)
        requires
            old(self).wf(),
        ensures
            final(self).wf(),
            final(self).target() == old(self).target(),
            old(self).device_map().contains_key(id@) ==> final(self).device_map() == old(self).device_map().insert(
                id@,
                DeviceSyncParams { last_push_micros: micros, ..old(self).device_map()[id@] },
            ),
            !old(self).device_map().contains_key(id@) ==> final(self).device_map() == old(self).device_map(),
    {
        match self.devices.find(id) {
            None => {},
            Some(i) => {
                let ghost pre = self.devices;
                proof {
                    pre.lemma_index(i as int);
                }
                let p = *self.devices.value_at(i);
                let q = DeviceSyncParams { last_push_micros: micros, ..p };
                self.devices.set_value_at(i, q);
                proof {
                    let m = self.devices@;
                    assert(m.dom() =~= pre@.dom());
                    assert forall|k: Seq<char>| #[trigger] m.contains_key(k) implies latency_fits(m[k].intrinsic_latency) by {
                        if k != id@ {
                        }
                    }
                    if !aligned(self.target_latency, pre@) {
                        assert(pre@.contains_key(id@));
                    }
                    assert forall|k: Seq<char>| #[trigger] m.contains_key(k) implies m[k].intrinsic_latency == pre@[k].intrinsic_latency
                        && m[k].compensation_delay == pre@[k].compensation_delay by {
                    }
                    if aligned(self.target_latency, pre@) {
                        if exists|k: Seq<char>| #[trigger] m.contains_key(k) {
                            let k1 = choose|k: Seq<char>| #[trigger] pre@.contains_key(k) && pre@[k].intrinsic_latency + MIN_SAFETY_MARGIN == self.target_latency;
                            assert(m.contains_key(k1));
                        }
                        assert(aligned(self.target_latency, m));
                    }
                }
            },
        }
    }

    /// Current target latency, in nanoseconds.
    pub fn target_latency(&self) -> (r: u128)
        ensures
            r == self.target(),
    {
        self.target_latency
    }

    /// The parameters of one device.
    pub fn device_params(&self, id: &DeviceId) -> (r: Option<DeviceSyncParams>)
        requires
            self.wf(),
        ensures
            r == (if self.device_map().contains_key(id@) {
                Some(self.device_map()[id@])
            } else {
                None
            }),
    {
        match self.devices.find(id) {
            None => None,
            Some(i) => {
                proof {
                    self.devices.lemma_index(i as int);
                }
                Some(*self.devices.value_at(i))
            },
        }
    }

    /// Collects the devices that have pushed audio, in table order, with
    /// their push times.
    fn active_samples(&self) -> (r: Vec<(DeviceId, u64)>)
        requires
            self.wf(),
        ensures
            r@.map_values(|e: (DeviceId, u64)| e.0@).no_duplicates(),
            r@.map_values(|e: (DeviceId, u64)| e.0@).to_set() == active_ids(self.device_map()),
            r@.len() == active_ids(self.device_map()).len(),
            forall|q: int| 0 <= q < r@.len() ==> #[trigger] r@[q].1 == self.device_map()[r@[q].0@].last_push_micros
                && r@[q].1 != 0,
    {
        let ghost t = self.devices;
        let ghost m = self.devices@;
        proof {
            t.lemma_lens();
        }
        let n = self.devices.len();
        let mut out: Vec<(DeviceId, u64)> = Vec::new();
        let ghost mut idx: Seq<int> = Seq::empty();
        let mut i: usize = 0;
        while i < n
            invariant
                t == self.devices,
                m == t@,
                t.wf(),
                n == t.size(),
                t.keys().len() == n,
                t.values().len() == n,
                i <= n,
                idx.len() == out@.len(),
                forall|q: int| 0 <= q < idx.len() ==> 0 <= #[trigger] idx[q] < i,
                forall|q: int| 0 <= q < idx.len() ==> #[trigger] out@[q].0@ == t.keys()[idx[q]],
                forall|q: int| 0 <= q < idx.len() ==> #[trigger] out@[q].1 == t.values()[idx[q]].last_push_micros,
                forall|q: int| 0 <= q < idx.len() ==> #[trigger] t.values()[idx[q]].last_push_micros != 0,
                forall|a: int, b: int| 0 <= a < b < idx.len() ==> #[trigger] idx[a] < #[trigger] idx[b],
                forall|j: int| 0 <= j < i && #[trigger] t.values()[j].last_push_micros != 0 ==> exists|q: int| 0 <= q < idx.len() && idx[q] == j,
            decreases n - i,
        {
            let p = *self.devices.value_at(i);
            if p.last_push_micros != 0 {
                let id = self.devices.key_at(i).to_owned_id();
                out.push((id, p.last_push_micros));
                proof {
                    let old_idx = idx;
                    idx = idx.push(i as int);
                    assert(idx[idx.len() - 1] == i);
                    assert forall|j: int| 0 <= j < i + 1 && #[trigger] t.values()[j].last_push_micros != 0 implies exists|q: int|
                        0 <= q < idx.len() && idx[q] == j by {
                        if j < i {
                            let q = choose|q: int| 0 <= q < old_idx.len() && old_idx[q] == j;
                            assert(idx[q] == j);
                        } else {
                            assert(idx[idx.len() - 1] == j);
                        }
                    }
                }
            }
            i = i + 1;
        }
        proof {
            let ids = out@.map_values(|e: (DeviceId, u64)| e.0@);
            assert forall|a: int, b: int| 0 <= a < ids.len() && 0 <= b < ids.len() && a != b implies ids[a] != ids[b] by {
                assert(ids[a] == t.keys()[idx[a]]);
                assert(ids[b] == t.keys()[idx[b]]);
                t.lemma_keys_distinct(idx[a], idx[b]);
                if a < b {
                    assert(idx[a] < idx[b]);
                } else {
                    assert(idx[b] < idx[a]);
                }
            }
            assert forall|q: int| 0 <= q < out@.len() implies #[trigger] out@[q].1 == m[out@[q].0@].last_push_micros
                && out@[q].1 != 0 by {
                t.lemma_index(idx[q]);
            }
            assert forall|k: Seq<char>| #[trigger] ids.to_set().contains(k) == active_ids(m).contains(k) by {
                if ids.to_set().contains(k) {
                    let q = choose|q: int| 0 <= q < ids.len() && ids[q] == k;
                    t.lemma_index(idx[q]);
                }
                if active_ids(m).contains(k) {
                    t.lemma_dom();
                    let j = choose|j: int| 0 <= j < t.size() && t.keys()[j] == k;
                    t.lemma_index(j);
                    assert(t.values()[j].last_push_micros != 0);
                    let q = choose|q: int| 0 <= q < idx.len() && idx[q] == j;
                    assert(ids[q] == k);
                }
            }
            assert(ids.to_set() =~= active_ids(m));
            ids.unique_seq_to_set();
        }
        out
    }

    /// Per-device offset, in microseconds, from the mean push time of the
    /// devices that have pushed. Positive means the device is ahead and
    /// must slow down. With fewer than two such devices the list is
    /// empty: there is nothing to correct.
    pub fn per_device_errors(&self) -> (r: Vec<(DeviceId, i64)>)
        requires
            self.wf(),
            self.device_map().dom().len() < 0x8000_0000_0000_0000,
        ensures
            active_ids(self.device_map()).len() < 2 ==> r@.len() == 0,
            active_ids(self.device_map()).len() >= 2 ==> {
                let ids = r@.map_values(|e: (DeviceId, i64)| e.0@);
                &&& ids.no_duplicates()
                &&& ids.to_set() == active_ids(self.device_map())
                &&& forall|q: int| 0 <= q < r@.len() ==> #[trigger] r@[q].1 == clamp_i64(
                    self.device_map()[ids[q]].last_push_micros - push_sum(ids, self.device_map()) / (ids.len() as int),
                )
            },
    {
        let ghost m = self.device_map();
        let samples = self.active_samples();
        let n = samples.len();
        if n < 2 {
            return Vec::new();
        }
        let ghost sids = samples@.map_values(|e: (DeviceId, u64)| e.0@);
        proof {
            self.devices.lemma_dom();
            vstd::set_lib::lemma_len_subset(active_ids(m), m.dom());
        }
        let mut sum: i128 = 0;
        let mut i: usize = 0;
        while i < n
            invariant
                n == samples@.len(),
                n < 0x8000_0000_0000_0000,
                sids == samples@.map_values(|e: (DeviceId, u64)| e.0@),
                forall|q: int| 0 <= q < samples@.len() ==> #[trigger] samples@[q].1 == m[samples@[q].0@].last_push_micros,
                i <= n,
                sum as int == push_sum(sids.take(i as int), m),
                0 <= sum <= i * 0xffff_ffff_ffff_ffff,
            decreases n - i,
        {
            let t = samples[i].1;
            proof {
                assert(sids.take(i + 1).drop_last() =~= sids.take(i as int));
                assert(sids.take(i + 1).last() == sids[i as int]);
                assert(samples@[i as int].1 == m[sids[i as int]].last_push_micros);
                assert(sum + t <= (i + 1) * 0xffff_ffff_ffff_ffff) by (nonlinear_arith)
                    requires sum <= i * 0xffff_ffff_ffff_ffff, t <= 0xffff_ffff_ffff_ffffu64;
                assert((i + 1) * 0xffff_ffff_ffff_ffff <= 0x8000_0000_0000_0000 * 0xffff_ffff_ffff_ffff) by (nonlinear_arith)
                    requires i + 1 <= n, n < 0x8000_0000_0000_0000;
            }
            sum = sum + t as i128;
            i = i + 1;
        }
        assert(sids.take(n as int) =~= sids);
        let mean: i128 = sum / (n as i128);
        let mut out: Vec<(DeviceId, i64)> = Vec::new();
        let mut i: usize = 0;
        while i < n
            invariant
                n == samples@.len(),
                n >= 2,
                sids == samples@.map_values(|e: (DeviceId, u64)| e.0@),
                forall|q: int| 0 <= q < samples@.len() ==> #[trigger] samples@[q].1 == m[samples@[q].0@].last_push_micros,
                mean as int == push_sum(sids, m) / (n as int),
                0 <= mean,
                mean <= 0xffff_ffff_ffff_ffff * 0x8000_0000_0000_0000,
                i <= n,
                out@.len() == i,
                forall|q: int| 0 <= q < i ==> #[trigger] out@[q].0@ == sids[q],
                forall|q: int| 0 <= q < i ==> #[trigger] out@[q].1 == clamp_i64(
                    m[sids[q]].last_push_micros - push_sum(sids, m) / (n as int),
                ),
            decreases n - i,
        {
            let t = samples[i].1;
            let e: i128 = t as i128 - mean;
            let c: i64 = if e < (i64::MIN as i128) {
                i64::MIN
            } else if e > (i64::MAX as i128) {
                i64::MAX
            } else {
                e as i64
            };
            out.push((samples[i].0.to_owned_id(), c));
            i = i + 1;
        }
        proof {
            let ids = out@.map_values(|e: (DeviceId, i64)| e.0@);
            assert(ids =~= sids);
        }
        out
    }

    /// Drift between the devices that have pushed audio: the spread of
    /// their last push times. Below two such devices the drift is zero and
    /// they count as in sync.
    pub fn drift_snapshot(&self) -> (r: DriftSnapshot)
        requires
            self.wf(),
            self.device_map().dom().len() <= u32::MAX,
        ensures
            r.active_count == active_ids(self.device_map()).len(),
            active_ids(self.device_map()).len() < 2 ==> r.drift_ms == 0 && r.in_sync,
            active_ids(self.device_map()).len() >= 2 ==> exists|kmin: Seq<char>, kmax: Seq<char>| {
                &&& #[trigger] active_ids(self.device_map()).contains(kmin)
                &&& #[trigger] active_ids(self.device_map()).contains(kmax)
                &&& forall|k: Seq<char>| #[trigger] active_ids(self.device_map()).contains(k) ==>
                    self.device_map()[kmin].last_push_micros <= self.device_map()[k].last_push_micros
                    <= self.device_map()[kmax].last_push_micros
                &&& r.drift_ms == ((self.device_map()[kmax].last_push_micros - self.device_map()[kmin].last_push_micros) / 1000) as u32
                &&& r.in_sync == (r.drift_ms <= DRIFT_THRESHOLD_MS)
            },
    {
        let ghost m = self.device_map();
        let samples = self.active_samples();
        let n = samples.len();
        let ghost sids = samples@.map_values(|e: (DeviceId, u64)| e.0@);
        proof {
            self.devices.lemma_dom();
            vstd::set_lib::lemma_len_subset(active_ids(m), m.dom());
        }
        if n < 2 {
            return DriftSnapshot { drift_ms: 0, active_count: n as u32, in_sync: true };
        }
        let mut min_t: u64 = u64::MAX;
        let mut max_t: u64 = 0;
        let ghost mut imin: int = 0;
        let ghost mut imax: int = 0;
        let mut i: usize = 0;
        while i < n
            invariant
                n == samples@.len(),
                n >= 2,
                i <= n,
                0 <= imin < n,
                0 <= imax < n,
                i > 0 ==> samples@[imin].1 == min_t && samples@[imax].1 == max_t,
                forall|q: int| 0 <= q < i ==> min_t <= #[trigger] samples@[q].1 <= max_t,
            decreases n - i,
        {
            let t = samples[i].1;
            if t < min_t || i == 0 {
                min_t = t;
                proof { imin = i as int; }
            }
            if t > max_t || i == 0 {
                max_t = t;
                proof { imax = i as int; }
            }
            i = i + 1;
        }
        let drift_micros = max_t - min_t;
        let drift_ms = (drift_micros / 1000) as u32;
        let r = DriftSnapshot {
            drift_ms,
            active_count: n as u32,
            in_sync: (drift_ms as u64) <= DRIFT_THRESHOLD_MS,
        };
        proof {
            let kmin = sids[imin];
            let kmax = sids[imax];
            assert(sids.contains(kmin));
            assert(sids.contains(kmax));
            assert(sids.to_set().contains(kmin));
            assert(sids.to_set().contains(kmax));
            assert forall|k: Seq<char>| #[trigger] active_ids(m).contains(k) implies m[kmin].last_push_micros
                <= m[k].last_push_micros <= m[kmax].last_push_micros by {
                assert(sids.to_set().contains(k));
                let q = choose|q: int| 0 <= q < sids.len() && sids[q] == k;
                assert(samples@[q].1 == m[k].last_push_micros);
            }
        }
        r
    }

    /// Number of devices.
    pub fn device_count(&self) -> (r: usize)
        requires
            self.wf(),
        ensures
            r == self.device_map().dom().len(),
    {
        self.devices.len()
    }
}

/// Every device, delayed by its compensation, reaches the common target:
/// intrinsic latency plus compensation is the same for all devices.
pub proof fn law_all_devices_meet_target(target: u128, m: Map<Seq<char>, DeviceSyncParams>, a: Seq<char>, b: Seq<char>)
    requires
        aligned(target, m),
        m.contains_key(a),
        m.contains_key(b),
    ensures
        m[a].intrinsic_latency + m[a].compensation_delay == target,
        m[a].intrinsic_latency + m[a].compensation_delay == m[b].intrinsic_latency + m[b].compensation_delay,
{
}

/// The slowest device gets exactly the safety margin as compensation.
pub proof fn law_slowest_device_gets_margin(target: u128, m: Map<Seq<char>, DeviceSyncParams>, slow: Seq<char>)
    requires
        aligned(target, m),
        m.contains_key(slow),
        forall|k: Seq<char>| #[trigger] m.contains_key(k) ==> m[k].intrinsic_latency <= m[slow].intrinsic_latency,
    ensures
        m[slow].compensation_delay == MIN_SAFETY_MARGIN,
        target == m[slow].intrinsic_latency + MIN_SAFETY_MARGIN,
{
    let k = choose|k: Seq<char>| #[trigger] m.contains_key(k) && m[k].intrinsic_latency + MIN_SAFETY_MARGIN == target;
    assert(m[k].intrinsic_latency <= m[slow].intrinsic_latency);
}

/// A faster device waits longer, by exactly the difference in latency.
pub proof fn law_faster_device_waits_longer(target: u128, m: Map<Seq<char>, DeviceSyncParams>, fast: Seq<char>, slow: Seq<char>)
    requires
        aligned(target, m),
        m.contains_key(fast),
        m.contains_key(slow),
        m[fast].intrinsic_latency <= m[slow].intrinsic_latency,
    ensures
        m[fast].compensation_delay >= m[slow].compensation_delay,
        m[fast].compensation_delay - m[slow].compensation_delay == m[slow].intrinsic_latency - m[fast].intrinsic_latency,
{
}

/// The target is the largest intrinsic latency plus the margin, and the
/// margin alone when there is no device.
pub proof fn law_target_is_slowest_plus_margin(target: u128, m: Map<Seq<char>, DeviceSyncParams>)
    requires
        aligned(target, m),
    ensures
        forall|k: Seq<char>| #[trigger] m.contains_key(k) ==> m[k].intrinsic_latency + MIN_SAFETY_MARGIN <= target,
        m.dom() == Set::<Seq<char>>::empty() ==> target == MIN_SAFETY_MARGIN,
        m.dom() != Set::<Seq<char>>::empty() ==> exists|k: Seq<char>| #[trigger] m.contains_key(k)
            && m[k].intrinsic_latency + MIN_SAFETY_MARGIN == target,
{
    if exists|k: Seq<char>| #[trigger] m.contains_key(k) {
        let k = choose|k: Seq<char>| #[trigger] m.contains_key(k);
        assert(m.dom().contains(k));
        assert(!Set::<Seq<char>>::empty().contains(k));
    } else {
        assert(m.dom() =~= Set::<Seq<char>>::empty());
    }
}

/// With one latency on every device, the target is that latency plus the
/// margin and every device is compensated by the margin alone.
pub proof fn law_uniform_latency(target: u128, m: Map<Seq<char>, DeviceSyncParams>, latency: u128, some: Seq<char>)
    requires
        aligned(target, m),
        m.contains_key(some),
        forall|k: Seq<char>| #[trigger] m.contains_key(k) ==> m[k].intrinsic_latency == latency,
    ensures
        target == latency + MIN_SAFETY_MARGIN,
        forall|k: Seq<char>| #[trigger] m.contains_key(k) ==> m[k].compensation_delay == MIN_SAFETY_MARGIN,
{
    let k = choose|k: Seq<char>| #[trigger] m.contains_key(k) && m[k].intrinsic_latency + MIN_SAFETY_MARGIN == target;
}

/// The target and the compensations are determined by the intrinsic
/// latencies alone: two aligned states over the same latencies agree.
pub proof fn law_alignment_is_unique(
    t1: u128,
    m1: Map<Seq<char>, DeviceSyncParams>,
    t2: u128,
    m2: Map<Seq<char>, DeviceSyncParams>,
)
    requires
        aligned(t1, m1),
        aligned(t2, m2),
        m1.dom() == m2.dom(),
        forall|k: Seq<char>| #[trigger] m1.contains_key(k) ==> m1[k].intrinsic_latency == m2[k].intrinsic_latency,
    ensures
        t1 == t2,
        forall|k: Seq<char>| #[trigger] m1.contains_key(k) ==> m1[k].compensation_delay == m2[k].compensation_delay,
{
    if exists|k: Seq<char>| #[trigger] m1.contains_key(k) {
        let a = choose|k: Seq<char>| #[trigger] m1.contains_key(k) && m1[k].intrinsic_latency + MIN_SAFETY_MARGIN == t1;
        assert(m2.contains_key(a));
        let b = choose|k: Seq<char>| #[trigger] m2.contains_key(k) && m2[k].intrinsic_latency + MIN_SAFETY_MARGIN == t2;
        assert(m1.contains_key(b));
    } else {
        assert forall|k: Seq<char>| !#[trigger] m2.contains_key(k) by {
            if m2.contains_key(k) {
                assert(m1.dom().contains(k));
            }
        }
    }
}

/// A latency given in milliseconds, in nanoseconds; it always fits.
pub fn latency_from_millis(ms: u64) -> (r: u128)
    ensures
        r == ms * 1_000_000,
        latency_fits(r),
{
    (ms as u128) * 1_000_000
}

/// A latency in whole milliseconds, as the UI shows it (truncated to 64
/// bits like `Duration::as_millis() as u64`).
pub fn latency_to_millis(nanos: u128) -> (r: u64)
    ensures
        r == (nanos / 1_000_000) as u64,
{
    (nanos / 1_000_000) as u64
}

} // verus!
