//! The audio worker's bookkeeping, as a state machine.
//!
//! The worker owns the capture, one output stream per device and the test
//! streams; the application performs those I/O actions. What the worker
//! decides, and the registries it keeps in step (the sync engine, the
//! output manager and the list of active outputs), live here. The
//! registries always name the same devices, and outputs exist only while
//! capture runs.

use vstd::prelude::*;
use crate::core_types::{DeviceId, Error};
use crate::guard::{device_not_found_message, DEVICE_NOT_FOUND_PREFIX};
use crate::output::{OutputManager, OutputState, UNITY_GAIN_BITS};
use crate::pipeline::{check_add_output, check_test_signal, locate_device, refusal, is_source_of};
use crate::sync::{SyncEngine, DeviceSyncParams, latency_fits, aligned, keeps_settings};
use crate::text::str_eq;

verus! {

/// Latency assumed for a newly opened output until the user sets its
/// own: 20 ms, in nanoseconds.
pub const DEFAULT_INTRINSIC_LATENCY: u128 = 20_000_000;

/// The texts of a list of ids.
pub open spec fn id_texts(v: Seq<DeviceId>) -> Seq<Seq<char>> {
    v.map_values(|d: DeviceId| d@)
}

/// The texts of a list of strings.
pub open spec fn string_texts(v: Seq<String>) -> Seq<Seq<char>> {
    v.map_values(|s: String| s@)
}

/// State of the audio worker.
pub struct EngineState {
    sync: SyncEngine,
    outputs: OutputManager,
    active_ids: Vec<DeviceId>,
    loopback_source: Option<String>,
    tests: Vec<String>,
}

impl EngineState {
    /// The sync engine's state.
    pub closed spec fn sync_spec(&self) -> SyncEngine {
        self.sync
    }

    /// The output manager's state.
    pub closed spec fn outputs_spec(&self) -> OutputManager {
        self.outputs
    }

    /// The active outputs, in the order they were added (an id appears
    /// once per stream opened on it).
    pub closed spec fn active_spec(&self) -> Seq<Seq<char>> {
        id_texts(self.active_ids@)
    }

    /// The loopback source, when capture runs.
    pub closed spec fn source_spec(&self) -> Option<Seq<char>> {
        match self.loopback_source {
            Some(s) => Some(s@),
            None => None,
        }
    }

    /// Devices with a test signal playing.
    pub closed spec fn tests_spec(&self) -> Seq<Seq<char>> {
        string_texts(self.tests@)
    }

    /// The registries agree on the set of devices, and there are no
    /// outputs without capture.
    pub closed spec fn wf(&self) -> bool {
        &&& self.sync.wf()
        &&& self.outputs.wf()
        &&& self.sync.device_map().dom() == self.active_spec().to_set()
        &&& self.outputs.outputs_map().dom() == self.active_spec().to_set()
        &&& self.loopback_source is None ==> self.active_ids@.len() == 0
        &&& (self.source_spec() matches Some(src) ==> !self.active_spec().contains(src))
    }

    /// Nothing open, nothing registered.
    pub fn new() -> (r: Self)
        ensures
            r.wf(),
            r.source_spec() is None,
            r.active_spec() == Seq::<Seq<char>>::empty(),
            r.tests_spec() == Seq::<Seq<char>>::empty(),
            r.sync_spec().device_map() == Map::<Seq<char>, DeviceSyncParams>::empty(),
            r.outputs_spec().outputs_map() == Map::<Seq<char>, OutputState>::empty(),
    {
        let r = EngineState {
            sync: SyncEngine::new(),
            outputs: OutputManager::new(),
            active_ids: Vec::new(),
            loopback_source: None,
            tests: Vec::new(),
        };
        assert(r.active_spec() =~= Seq::<Seq<char>>::empty());
        assert(r.tests_spec() =~= Seq::<Seq<char>>::empty());
        assert(r.active_spec().to_set() =~= Set::<Seq<char>>::empty());
        assert(r.sync.device_map().dom() =~= Set::<Seq<char>>::empty());
        assert(r.outputs.outputs_map().dom() =~= Set::<Seq<char>>::empty());
        r
    }

    /// The sync engine.
    pub fn sync(&self) -> (r: &SyncEngine)
        ensures
            *r == self.sync_spec(),
    {
        &self.sync
    }

    /// The output manager.
    pub fn outputs(&self) -> (r: &OutputManager)
        ensures
            *r == self.outputs_spec(),
    {
        &self.outputs
    }

    /// Whether capture runs.
    pub fn is_running(&self) -> (r: bool)
        ensures
            r == self.source_spec() is Some,
    {
        self.loopback_source.is_some()
    }

    /// The loopback source, when capture runs.
    pub fn loopback_source(&self) -> (r: Option<String>)
        ensures
            match r {
                Some(s) => self.source_spec() == Some(s@),
                None => self.source_spec() is None,
            },
    {
        match &self.loopback_source {
            Some(s) => Some(s.clone()),
            None => None,
        }
    }

    /// The active outputs.
    pub fn active_outputs(&self) -> (r: Vec<DeviceId>)
        ensures
            id_texts(r@) == self.active_spec(),
    {
        let mut out: Vec<DeviceId> = Vec::new();
        let mut i: usize = 0;
        while i < self.active_ids.len()
            invariant
                i <= self.active_ids@.len(),
                out@.len() == i,
                forall|j: int| 0 <= j < i ==> #[trigger] out@[j]@ == self.active_ids@[j]@,
            decreases self.active_ids@.len() - i,
        {
            out.push(self.active_ids[i].to_owned_id());
            i = i + 1;
        }
        assert(id_texts(out@) =~= id_texts(self.active_ids@));
        out
    }

    /// Index of the first active output on device `id`, or the worker's
    /// "device not found" failure.
    pub fn locate_active(&self, id: &DeviceId) -> (r: Result<usize, String>)
        ensures
            r matches Ok(i) ==> first_active(self.active_spec(), id@, i as int),
            r is Err ==> refusal(r) == Some(DEVICE_NOT_FOUND_PREFIX@ + id@),
            r is Err <==> !self.active_spec().contains(id@),
    {
        let r = locate_device(&self.active_ids, id);
        proof {
            let a = self.active_spec();
            assert forall|j: int| 0 <= j < self.active_ids@.len() implies #[trigger] a[j] == self.active_ids@[j]@ by {}
            if a.contains(id@) {
                let j = choose|j: int| 0 <= j < a.len() && a[j] == id@;
                assert(self.active_ids@[j]@ == id@);
            }
            if r is Ok {
                let i = r->Ok_0;
                assert(a[i as int] == id@);
            }
        }
        r
    }

    /// Capture opened on `source`.
    pub fn capture_started(&mut self, source: String)
        requires
            old(self).wf(),
            old(self).source_spec() is None,
        ensures
            final(self).wf(),
            final(self).source_spec() == Some(source@),
            final(self).active_spec() == old(self).active_spec(),
            final(self).tests_spec() == old(self).tests_spec(),
            final(self).sync_spec() == old(self).sync_spec(),
            final(self).outputs_spec() == old(self).outputs_spec(),
    {
        self.loopback_source = Some(source);
    }

    /// Capture and every output stream stopped: every output leaves the
    /// registries. Test signals keep playing.
    pub fn capture_stopped(&mut self)
        requires
            old(self).wf(),
        ensures
            final(self).wf(),
            final(self).source_spec() is None,
            final(self).active_spec() == Seq::<Seq<char>>::empty(),
            final(self).sync_spec().device_map() == Map::<Seq<char>, DeviceSyncParams>::empty(),
            final(self).outputs_spec().outputs_map() == Map::<Seq<char>, OutputState>::empty(),
            final(self).outputs_spec().master_spec() == old(self).outputs_spec().master_spec(),
            final(self).tests_spec() == old(self).tests_spec(),
            aligned(final(self).sync_spec().target(), final(self).sync_spec().device_map())
                || final(self).sync_spec().target() == old(self).sync_spec().target(),
    {
        let n = self.active_ids.len();
        let ghost pre_sync = self.sync;
        let ghost pre_tests = self.tests@;
        let ghost pre_ids = self.active_ids@;
        let ghost pre_master = self.outputs.master_spec();
        let mut i: usize = 0;
        while i < n
            invariant
                n == self.active_ids@.len(),
                self.outputs.master_spec() == pre_master,
                self.tests@ == pre_tests,
                self.active_ids@ == pre_ids,
                i <= n,
                self.sync.wf(),
                self.outputs.wf(),
                forall|k: Seq<char>| #[trigger] self.sync.device_map().contains_key(k) ==> exists|j: int|
                    i <= j < n && id_texts(self.active_ids@)[j] == k,
                forall|k: Seq<char>| #[trigger] self.outputs.outputs_map().contains_key(k) ==> exists|j: int|
                    i <= j < n && id_texts(self.active_ids@)[j] == k,
                i == 0 ==> self.sync == pre_sync,
                i > 0 ==> aligned(self.sync.target(), self.sync.device_map()),
            decreases n - i,
        {
            let ghost before_sync = self.sync.device_map();
            let ghost before_out = self.outputs.outputs_map();
            let ghost k = self.active_ids@[i as int]@;
            self.sync.remove_device(&self.active_ids[i]);
            self.outputs.remove(&self.active_ids[i]);
            proof {
                assert forall|kk: Seq<char>| #[trigger] self.sync.device_map().contains_key(kk) implies exists|j: int|
                    i + 1 <= j < n && id_texts(self.active_ids@)[j] == kk by {
                    assert(before_sync.contains_key(kk));
                    let j = choose|j: int| i <= j < n && id_texts(self.active_ids@)[j] == kk;
                    assert(j != i);
                }
                assert forall|kk: Seq<char>| #[trigger] self.outputs.outputs_map().contains_key(kk) implies exists|j: int|
                    i + 1 <= j < n && id_texts(self.active_ids@)[j] == kk by {
                    assert(before_out.contains_key(kk));
                    let j = choose|j: int| i <= j < n && id_texts(self.active_ids@)[j] == kk;
                    assert(j != i);
                }
            }
            i = i + 1;
        }
        self.active_ids.clear();
        self.loopback_source = None;
        proof {
            assert(self.sync.device_map() =~= Map::<Seq<char>, DeviceSyncParams>::empty());
            assert(self.outputs.outputs_map() =~= Map::<Seq<char>, OutputState>::empty());
            assert(self.active_spec() =~= Seq::<Seq<char>>::empty());
            assert(self.active_spec().to_set() =~= Set::<Seq<char>>::empty());
        }
    }

    /// Whether the worker may open an output on `device_name`.
    pub fn check_add_output(&self, device_name: &str) -> (r: Result<(), String>)
        ensures
            is_source_of_text(self.source_spec(), device_name@) ==> refusal(r) == Some(crate::guard::ERR_FEEDBACK_LOOP@),
            self.source_spec() is None ==> refusal(r) == Some(crate::guard::ENGINE_NOT_STARTED@),
            self.source_spec() is Some && !is_source_of_text(self.source_spec(), device_name@) ==> r is Ok,
    {
        match &self.loopback_source {
            Some(s) => check_add_output(Some(s.as_str()), device_name),
            None => check_add_output(None, device_name),
        }
    }

    /// An output stream opened on device `id`: it joins the sync engine
    /// with its latency and rate, the output manager with the default
    /// state, and the active list.
    pub fn output_opened(&mut self, id: DeviceId, intrinsic_latency: u128, sample_rate: u32)
        requires
            old(self).wf(),
            old(self).source_spec() is Some,
            old(self).source_spec() != Some(id@),
            latency_fits(intrinsic_latency),
        ensures
            final(self).wf(),
            final(self).active_spec() == old(self).active_spec().push(id@),
            final(self).source_spec() == old(self).source_spec(),
            final(self).tests_spec() == old(self).tests_spec(),
            final(self).sync_spec().device_map().dom() == old(self).sync_spec().device_map().dom().insert(id@),
            final(self).sync_spec().device_map()[id@].intrinsic_latency == intrinsic_latency,
            final(self).sync_spec().device_map()[id@].sample_rate == sample_rate,
            final(self).sync_spec().device_map()[id@].last_push_micros == 0,
            forall|k: Seq<char>| #[trigger] old(self).sync_spec().device_map().contains_key(k) && k != id@ ==> keeps_settings(
                old(self).sync_spec().device_map()[k],
                final(self).sync_spec().device_map()[k],
            ),
            aligned(final(self).sync_spec().target(), final(self).sync_spec().device_map()),
            final(self).outputs_spec().outputs_map() == old(self).outputs_spec().outputs_map().insert(
                id@,
                crate::output::default_output_state(),
            ),
            final(self).outputs_spec().master_spec() == old(self).outputs_spec().master_spec(),
    {
        let ghost pre_active = self.active_spec();
        self.sync.add_device(id.to_owned_id(), intrinsic_latency, sample_rate);
        self.outputs.add(id.to_owned_id());
        let ghost k = id@;
        self.active_ids.push(id);
        proof {
            assert(self.active_spec() =~= pre_active.push(k));
            assert(self.active_spec().to_set() =~= pre_active.to_set().insert(k)) by {
                assert forall|x: Seq<char>| #[trigger] self.active_spec().to_set().contains(x) == pre_active.to_set().insert(k).contains(x) by {
                    if self.active_spec().contains(x) {
                        let j = choose|j: int| 0 <= j < self.active_spec().len() && self.active_spec()[j] == x;
                        if j < pre_active.len() {
                            assert(pre_active[j] == x);
                        }
                    }
                    if pre_active.contains(x) {
                        let j = choose|j: int| 0 <= j < pre_active.len() && pre_active[j] == x;
                        assert(self.active_spec()[j] == x);
                    }
                    if x == k {
                        assert(self.active_spec()[pre_active.len() as int] == k);
                    }
                }
            }
        }
    }

    /// Every stream on device `id` closed: it leaves all registries.
    pub fn output_removed(&mut self, id: &DeviceId)
        requires
            old(self).wf(),
        ensures
            final(self).wf(),
            final(self).active_spec() == old(self).active_spec().filter(|k: Seq<char>| k != id@),
            final(self).source_spec() == old(self).source_spec(),
            final(self).tests_spec() == old(self).tests_spec(),
            final(self).sync_spec().device_map().dom() == old(self).sync_spec().device_map().dom().remove(id@),
            forall|k: Seq<char>| #[trigger] final(self).sync_spec().device_map().contains_key(k) ==> keeps_settings(
                old(self).sync_spec().device_map()[k],
                final(self).sync_spec().device_map()[k],
            ),
            aligned(final(self).sync_spec().target(), final(self).sync_spec().device_map()),
            final(self).outputs_spec().outputs_map() == old(self).outputs_spec().outputs_map().remove(id@),
            final(self).outputs_spec().master_spec() == old(self).outputs_spec().master_spec(),
    {
        let ghost pre_active = self.active_spec();
        self.sync.remove_device(id);
        self.outputs.remove(id);
        let mut kept: Vec<DeviceId> = Vec::new();
        let mut i: usize = 0;
        while i < self.active_ids.len()
            invariant
                i <= self.active_ids@.len(),
                pre_active == id_texts(self.active_ids@),
                id_texts(kept@) == pre_active.take(i as int).filter(|k: Seq<char>| k != id@),
            decreases self.active_ids@.len() - i,
        {
            proof {
                assert(pre_active.take(i + 1).drop_last() =~= pre_active.take(i as int));
                reveal_with_fuel(Seq::filter, 1);
            }
            if !self.active_ids[i].same_as(id) {
                kept.push(self.active_ids[i].to_owned_id());
                assert(id_texts(kept@) =~= pre_active.take(i + 1).filter(|k: Seq<char>| k != id@));
            } else {
                assert(pre_active.take(i + 1).filter(|k: Seq<char>| k != id@) =~= pre_active.take(i as int).filter(|k: Seq<char>| k != id@));
            }
            i = i + 1;
        }
        assert(pre_active.take(pre_active.len() as int) =~= pre_active);
        self.active_ids = kept;
        proof {
            let f = self.active_spec();
            assert forall|x: Seq<char>| #[trigger] f.to_set().contains(x) == pre_active.to_set().remove(id@).contains(x) by {
                if pre_active.filter(|k: Seq<char>| k != id@).contains(x) {
                    pre_active.lemma_filter_contains_rev(|k: Seq<char>| k != id@, x);
                    let j = choose|j: int| 0 <= j < f.len() && f[j] == x;
                    pre_active.lemma_filter_pred(|k: Seq<char>| k != id@, j);
                }
                if pre_active.contains(x) && x != id@ {
                    let j = choose|j: int| 0 <= j < pre_active.len() && pre_active[j] == x;
                    pre_active.lemma_filter_contains(|k: Seq<char>| k != id@, j);
                }
            }
            assert(f.to_set() =~= pre_active.to_set().remove(id@));
            if let Some(src) = self.source_spec() {
                if f.contains(src) {
                    assert(f.to_set().contains(src));
                    assert(pre_active.to_set().contains(src));
                }
            }
        }
    }

    /// Whether a test signal may start on `device_name`.
    pub fn check_test_signal(&self, device_name: &str) -> (r: Result<(), String>)
        ensures
            is_source_of_text(self.source_spec(), device_name@) ==> refusal(r) == Some(crate::guard::ERR_FEEDBACK_LOOP@),
            !is_source_of_text(self.source_spec(), device_name@) ==> {
                &&& self.tests_spec().contains(device_name@) ==> refusal(r) == Some(crate::guard::TEST_PLAYING_PREFIX@ + device_name@)
                &&& !self.tests_spec().contains(device_name@) ==> r is Ok
            },
    {
        let r = match &self.loopback_source {
            Some(s) => check_test_signal(Some(s.as_str()), &self.tests, device_name),
            None => check_test_signal(None, &self.tests, device_name),
        };
        proof {
            if self.tests_spec().contains(device_name@) {
                let j = choose|j: int| 0 <= j < self.tests_spec().len() && self.tests_spec()[j] == device_name@;
                assert(self.tests@[j]@ == device_name@);
            }
            if exists|j: int| 0 <= j < self.tests@.len() && #[trigger] self.tests@[j]@ == device_name@ {
                let j = choose|j: int| 0 <= j < self.tests@.len() && #[trigger] self.tests@[j]@ == device_name@;
                assert(self.tests_spec()[j] == device_name@);
            }
        }
        r
    }

    /// A test stream started on `device_name`.
    pub fn test_started(&mut self, device_name: String)
        requires
            old(self).wf(),
        ensures
            final(self).wf(),
            final(self).tests_spec() == old(self).tests_spec().push(device_name@),
            final(self).active_spec() == old(self).active_spec(),
            final(self).source_spec() == old(self).source_spec(),
            final(self).sync_spec() == old(self).sync_spec(),
            final(self).outputs_spec() == old(self).outputs_spec(),
    {
        let ghost pre = self.tests_spec();
        let ghost k = device_name@;
        self.tests.push(device_name);
        assert(self.tests_spec() =~= pre.push(k));
    }

    /// Every test stream on `device_name` stopped (by request or because
    /// it played out).
    pub fn test_stopped(&mut self, device_name: &str)
        requires
            old(self).wf(),
        ensures
            final(self).wf(),
            final(self).tests_spec() == old(self).tests_spec().filter(|k: Seq<char>| k != device_name@),
            final(self).active_spec() == old(self).active_spec(),
            final(self).source_spec() == old(self).source_spec(),
            final(self).sync_spec() == old(self).sync_spec(),
            final(self).outputs_spec() == old(self).outputs_spec(),
    {
        let ghost pre = self.tests_spec();
        let mut kept: Vec<String> = Vec::new();
        let mut i: usize = 0;
        while i < self.tests.len()
            invariant
                i <= self.tests@.len(),
                pre == string_texts(self.tests@),
                string_texts(kept@) == pre.take(i as int).filter(|k: Seq<char>| k != device_name@),
            decreases self.tests@.len() - i,
        {
            proof {
                assert(pre.take(i + 1).drop_last() =~= pre.take(i as int));
                reveal_with_fuel(Seq::filter, 1);
            }
            if !str_eq(self.tests[i].as_str(), device_name) {
                kept.push(self.tests[i].clone());
                assert(string_texts(kept@) =~= pre.take(i + 1).filter(|k: Seq<char>| k != device_name@));
            } else {
                assert(pre.take(i + 1).filter(|k: Seq<char>| k != device_name@) =~= pre.take(i as int).filter(|k: Seq<char>| k != device_name@));
            }
            i = i + 1;
        }
        assert(pre.take(pre.len() as int) =~= pre);
        self.tests = kept;
    }

    /// Sets an active device's mute in the output manager; the worker's
    /// "device not found" failure otherwise.
    pub fn set_muted(&mut self, id: &DeviceId, muted: bool) -> (r: Result<(), String>)
        requires
            old(self).wf(),
        ensures
            final(self).wf(),
            r is Ok <==> old(self).active_spec().contains(id@),
            r is Err ==> refusal(r) == Some(DEVICE_NOT_FOUND_PREFIX@ + id@)
                && final(self).outputs_spec().outputs_map() == old(self).outputs_spec().outputs_map(),
            r is Ok ==> final(self).outputs_spec().outputs_map() == old(self).outputs_spec().outputs_map().insert(
                id@,
                OutputState { muted, ..old(self).outputs_spec().outputs_map()[id@] },
            ),
            final(self).outputs_spec().master_spec() == old(self).outputs_spec().master_spec(),
            final(self).active_spec() == old(self).active_spec(),
            final(self).source_spec() == old(self).source_spec(),
            final(self).tests_spec() == old(self).tests_spec(),
            final(self).sync_spec() == old(self).sync_spec(),
    {
        let ghost pre = self.outputs.outputs_map();
        match self.outputs.set_muted(id, muted) {
            Ok(()) => {
                assert(self.outputs.outputs_map().dom() =~= pre.dom());
                assert(pre.dom().contains(id@));
                Ok(())
            },
            Err(_) => Err(device_not_found_message(id)),
        }
    }

    /// Sets the master gain (already clamped by the caller), as `f32` bits.
    pub fn set_master_gain_bits(&mut self, bits: u32)
        requires
            old(self).wf(),
        ensures
            final(self).wf(),
            final(self).outputs_spec().master_spec().gain_spec() == bits,
            final(self).outputs_spec().master_spec().muted_spec() == old(self).outputs_spec().master_spec().muted_spec(),
            final(self).outputs_spec().outputs_map() == old(self).outputs_spec().outputs_map(),
            final(self).active_spec() == old(self).active_spec(),
            final(self).sync_spec() == old(self).sync_spec(),
            final(self).source_spec() == old(self).source_spec(),
            final(self).tests_spec() == old(self).tests_spec(),
    {
        self.outputs.master_mut().set_gain_bits(bits);
    }

    /// Sets the master mute.
    pub fn set_master_muted(&mut self, muted: bool)
        requires
            old(self).wf(),
        ensures
            final(self).wf(),
            final(self).outputs_spec().master_spec().muted_spec() == muted,
            final(self).outputs_spec().master_spec().gain_spec() == old(self).outputs_spec().master_spec().gain_spec(),
            final(self).outputs_spec().outputs_map() == old(self).outputs_spec().outputs_map(),
            final(self).active_spec() == old(self).active_spec(),
            final(self).sync_spec() == old(self).sync_spec(),
            final(self).source_spec() == old(self).source_spec(),
            final(self).tests_spec() == old(self).tests_spec(),
    {
        self.outputs.master_mut().set_muted(muted);
    }

    /// Sets one device's latency (the UI slider); see
    /// `SyncEngine::set_device_latency`.
    pub fn set_device_latency(&mut self, id: &DeviceId, latency: u128) -> (r: Result<(), Error>)
        requires
            old(self).wf(),
            latency_fits(latency),
        ensures
            final(self).wf(),
            r is Ok <==> old(self).sync_spec().device_map().contains_key(id@),
            r is Ok ==> {
                &&& final(self).sync_spec().device_map()[id@].intrinsic_latency == latency
                &&& aligned(final(self).sync_spec().target(), final(self).sync_spec().device_map())
            },
            r is Err ==> final(self).sync_spec() == old(self).sync_spec(),
            final(self).sync_spec().device_map().dom() == old(self).sync_spec().device_map().dom(),
            final(self).active_spec() == old(self).active_spec(),
            final(self).outputs_spec() == old(self).outputs_spec(),
            final(self).source_spec() == old(self).source_spec(),
            final(self).tests_spec() == old(self).tests_spec(),
    {
        let ghost pre = self.sync;
        let r = self.sync.set_device_latency(id, latency);
        proof {
            if r is Err {
                assert(self.sync.device_map() == pre.device_map());
            }
        }
        r
    }

    /// Sets one latency on every device; returns how many.
    pub fn set_all_latencies(&mut self, latency: u128) -> (r: usize)
        requires
            old(self).wf(),
            latency_fits(latency),
        ensures
            final(self).wf(),
            r == old(self).sync_spec().device_map().dom().len(),
            final(self).sync_spec().device_map().dom() == old(self).sync_spec().device_map().dom(),
            forall|k: Seq<char>| #[trigger] final(self).sync_spec().device_map().contains_key(k)
                ==> final(self).sync_spec().device_map()[k].intrinsic_latency == latency,
            aligned(final(self).sync_spec().target(), final(self).sync_spec().device_map()),
            final(self).active_spec() == old(self).active_spec(),
            final(self).outputs_spec() == old(self).outputs_spec(),
            final(self).source_spec() == old(self).source_spec(),
            final(self).tests_spec() == old(self).tests_spec(),
    {
        self.sync.set_all_latencies(latency)
    }

    /// Records a push into a device's ring buffer; see
    /// `SyncEngine::record_push`.
    pub fn record_push(&mut self, id: &DeviceId, micros: u64)
        requires
            old(self).wf(),
        ensures
            final(self).wf(),
            final(self).sync_spec().device_map().dom() == old(self).sync_spec().device_map().dom(),
            final(self).sync_spec().target() == old(self).sync_spec().target(),
            old(self).sync_spec().device_map().contains_key(id@) ==> final(self).sync_spec().device_map()
                == old(self).sync_spec().device_map().insert(
                id@,
                DeviceSyncParams { last_push_micros: micros, ..old(self).sync_spec().device_map()[id@] },
            ),
            !old(self).sync_spec().device_map().contains_key(id@) ==> final(self).sync_spec().device_map()
                == old(self).sync_spec().device_map(),
            final(self).active_spec() == old(self).active_spec(),
            final(self).source_spec() == old(self).source_spec(),
            final(self).tests_spec() == old(self).tests_spec(),
            final(self).outputs_spec() == old(self).outputs_spec(),
    {
        let ghost pre = self.sync.device_map();
        self.sync.record_push(id, micros);
        assert(self.sync.device_map().dom() =~= pre.dom());
    }
}

/// `i` is the first position of `id` in `active`.
pub open spec fn first_active(active: Seq<Seq<char>>, id: Seq<char>, i: int) -> bool {
    &&& 0 <= i < active.len()
    &&& active[i] == id
    &&& forall|j: int| 0 <= j < i ==> #[trigger] active[j] != id
}

/// Whether `name` is the running capture's source.
pub open spec fn is_source_of_text(source: Option<Seq<char>>, name: Seq<char>) -> bool {
    source == Some(name)
}

/// The registries always name the same devices, and there is no output
/// without capture: every operation of the worker keeps `wf`.
pub proof fn law_registries_agree(e: EngineState)
    requires
        e.wf(),
    ensures
        e.sync_spec().device_map().dom() == e.outputs_spec().outputs_map().dom(),
        e.sync_spec().device_map().dom() == e.active_spec().to_set(),
        e.source_spec() is None ==> e.active_spec().len() == 0,
{
}

/// The loopback source is never among the active outputs: the worker
/// never plays the captured sound back into the device it captures.
pub proof fn law_source_is_never_an_output(e: EngineState)
    requires
        e.wf(),
    ensures
        e.source_spec() matches Some(src) ==> !e.active_spec().contains(src),
{
}

} // verus!
