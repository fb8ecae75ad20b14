//! Per-device output state and the global master controls.
//!
//! Gains are linear `f32` values in the audio path; here they are carried
//! as their exact IEEE-754 bit patterns (`f32::to_bits`), which the
//! application converts at the edge. The decisions made here (which device
//! exists, what mute does to the effective gain) never look inside a gain.

use vstd::prelude::*;
use crate::core_types::{DeviceId, Error};
use crate::table::DeviceTable;

verus! {

/// Bit pattern of the linear gain 1.0 (unity).
pub const UNITY_GAIN_BITS: u32 = 0x3f80_0000;

/// Bit pattern of the linear gain 0.0 (silence).
pub const ZERO_GAIN_BITS: u32 = 0;

/// One output device's user settings.
#[derive(Debug, Clone, Copy, PartialEq, Eq, Structural)]
pub struct OutputState {
    /// Linear volume in [0.0, 1.0], as `f32` bits.
    pub volume_bits: u32,
    pub muted: bool,
    /// Balance -1.0 (left only) … 0.0 (centre) … 1.0 (right only), as
    /// `f32` bits.
    pub balance_bits: u32,
}

/// A freshly added device: unity volume, not muted, centred.
pub open spec fn default_output_state() -> OutputState {
    OutputState { volume_bits: UNITY_GAIN_BITS, muted: false, balance_bits: ZERO_GAIN_BITS }
}

impl OutputState {
    /// Unity volume, not muted, centred.
    pub fn default() -> (r: OutputState)
        ensures
            r == default_output_state(),
    {
        OutputState { volume_bits: UNITY_GAIN_BITS, muted: false, balance_bits: ZERO_GAIN_BITS }
    }
}

/// Global gain and mute applied on top of every device's volume.
///
/// A value of this type is plain state: a copy is independent of the
/// controls it was copied from, and a change made through one copy does
/// not show through another. The application shares one set of controls
/// between threads by keeping it behind a lock.
#[derive(Debug, Clone, Copy, PartialEq, Eq, Structural)]
pub struct MasterControls {
    gain_bits: u32,
    muted: bool,
}

/// The gain that reaches the outputs: silence when muted, the gain
/// otherwise.
pub open spec fn effective_gain_of(gain_bits: u32, muted: bool) -> u32 {
    if muted {
        ZERO_GAIN_BITS
    } else {
        gain_bits
    }
}

impl MasterControls {
    /// The stored gain, as `f32` bits.
    pub closed spec fn gain_spec(&self) -> u32 {
        self.gain_bits
    }

    /// Whether the master mute is on.
    pub closed spec fn muted_spec(&self) -> bool {
        self.muted
    }

    /// Unity gain, not muted.
    pub fn new() -> (r: Self)
        ensures
            r.gain_spec() == UNITY_GAIN_BITS,
            !r.muted_spec(),
    {
        MasterControls { gain_bits: UNITY_GAIN_BITS, muted: false }
    }

    /// The stored gain, as `f32` bits.
    pub fn gain_bits(&self) -> (r: u32)
        ensures
            r == self.gain_spec(),
    {
        self.gain_bits
    }

    /// Stores a gain (already clamped to [0.0, 1.0] by the caller); the
    /// mute is left as it is.
    pub fn set_gain_bits(&mut self, bits: u32)
        ensures
            final(self).gain_spec() == bits,
            final(self).muted_spec() == old(self).muted_spec(),
    {
        self.gain_bits = bits;
    }

    /// Whether the master mute is on.
    pub fn muted(&self) -> (r: bool)
        ensures
            r == self.muted_spec(),
    {
        self.muted
    }

    /// Sets the master mute; the gain is left as it is.
    pub fn set_muted(&mut self, m: bool)
        ensures
            final(self).muted_spec() == m,
            final(self).gain_spec() == old(self).gain_spec(),
    {
        self.muted = m;
    }

    /// The multiplier for the audio path: 0.0 when muted, the gain
    /// otherwise.
    pub fn effective_gain_bits(&self) -> (r: u32)
        ensures
            r == effective_gain_of(self.gain_spec(), self.muted_spec()),
    {
        if self.muted {
            ZERO_GAIN_BITS
        } else {
            self.gain_bits
        }
    }
}

/// Muting silences the outputs without losing the gain: unmuting gives
/// the same gain back.
pub proof fn law_mute_then_unmute_restores_gain(gain_bits: u32)
    ensures
        effective_gain_of(gain_bits, true) == ZERO_GAIN_BITS,
        effective_gain_of(gain_bits, false) == gain_bits,
{
}

/// The set of active output devices and the master controls.
pub struct OutputManager {
    outputs: DeviceTable<OutputState>,
    master: MasterControls,
}

impl OutputManager {
    /// The devices and their states, by id.
    pub closed spec fn outputs_map(&self) -> Map<Seq<char>, OutputState> {
        self.outputs@
    }

    /// The master controls.
    pub closed spec fn master_spec(&self) -> MasterControls {
        self.master
    }

    /// The manager's invariant.
    pub closed spec fn wf(&self) -> bool {
        self.outputs.wf()
    }

    /// No devices, unity master gain, not muted.
    pub fn new() -> (r: Self)
        ensures
            r.wf(),
            r.outputs_map() == Map::<Seq<char>, OutputState>::empty(),
            r.master_spec().gain_spec() == UNITY_GAIN_BITS,
            !r.master_spec().muted_spec(),
    {
        OutputManager { outputs: DeviceTable::new(), master: MasterControls::new() }
    }

    /// The master controls.
    pub fn master(&self) -> (r: &MasterControls)
        ensures
            *r == self.master_spec(),
    {
        &self.master
    }

    /// The master controls, to change them.
    pub fn master_mut(&mut self) -> (r: &mut MasterControls)
        ensures
            *r == old(self).master_spec(),
            final(self).master_spec() == *final(r),
            final(self).outputs_map() == old(self).outputs_map(),
            final(self).wf() == old(self).wf(),
    {
        &mut self.master
    }

    /// Adds a device with the default state (or resets an existing one).
    pub fn add(&mut self, id: DeviceId)
        requires
            old(self).wf(),
        ensures
            final(self).wf(),
            final(self).outputs_map() == old(self).outputs_map().insert(id@, default_output_state()),
            final(self).master_spec() == old(self).master_spec(),
    {
        self.outputs.insert(id, OutputState::default());
    }

    /// Removes a device, if present.
    pub fn remove(&mut self, id: &DeviceId)
        requires
            old(self).wf(),
        ensures
            final(self).wf(),
            final(self).outputs_map() == old(self).outputs_map().remove(id@),
            final(self).master_spec() == old(self).master_spec(),
    {
        self.outputs.remove(id);
    }

    /// Sets a device's volume (already clamped to [0.0, 1.0] by the
    /// caller). Fails with `DeviceNotFound` for an unknown device.
    pub fn set_volume(&mut self, id: &DeviceId, volume_bits: u32) -> (r: Result<(), Error>)
        requires
            old(self).wf(),
        ensures
            final(self).wf(),
            final(self).master_spec() == old(self).master_spec(),
            r is Ok <==> old(self).outputs_map().contains_key(id@),
            r is Ok ==> final(self).outputs_map() == old(self).outputs_map().insert(
                id@,
                OutputState { volume_bits, ..old(self).outputs_map()[id@] },
            ),
            r matches Err(e) ==> e matches Error::DeviceNotFound(msg) && msg@ == id@,
            r is Err ==> final(self).outputs_map() == old(self).outputs_map(),
    {
        match self.outputs.find(id) {
            Some(i) => {
                proof {
                    self.outputs.lemma_index(i as int);
                }
                let s = *self.outputs.value_at(i);
                self.outputs.set_value_at(i, OutputState { volume_bits, ..s });
                Ok(())
            },
            None => Err(Error::DeviceNotFound(id.to_text())),
        }
    }

    /// Sets a device's mute. Fails with `DeviceNotFound` for an unknown
    /// device.
    pub fn set_muted(&mut self, id: &DeviceId, muted: bool) -> (r: Result<(), Error>)
        requires
            old(self).wf(),
        ensures
            final(self).wf(),
            final(self).master_spec() == old(self).master_spec(),
            r is Ok <==> old(self).outputs_map().contains_key(id@),
            r is Ok ==> final(self).outputs_map() == old(self).outputs_map().insert(
                id@,
                OutputState { muted, ..old(self).outputs_map()[id@] },
            ),
            r matches Err(e) ==> e matches Error::DeviceNotFound(msg) && msg@ == id@,
            r is Err ==> final(self).outputs_map() == old(self).outputs_map(),
    {
        match self.outputs.find(id) {
            Some(i) => {
                proof {
                    self.outputs.lemma_index(i as int);
                }
                let s = *self.outputs.value_at(i);
                self.outputs.set_value_at(i, OutputState { muted, ..s });
                Ok(())
            },
            None => Err(Error::DeviceNotFound(id.to_text())),
        }
    }

    /// A device's state, if it is active.
    pub fn state(&self, id: &DeviceId) -> (r: Option<OutputState>)
        requires
            self.wf(),
        ensures
            r == (if self.outputs_map().contains_key(id@) {
                Some(self.outputs_map()[id@])
            } else {
                None
            }),
    {
        match self.outputs.find(id) {
            Some(i) => {
                proof {
                    self.outputs.lemma_index(i as int);
                }
                Some(*self.outputs.value_at(i))
            },
            None => None,
        }
    }

    /// The active devices, each once.
    pub fn active(&self) -> (r: Vec<DeviceId>)
        requires
            self.wf(),
        ensures
            r@.map_values(|d: DeviceId| d@).no_duplicates(),
            r@.map_values(|d: DeviceId| d@).to_set() == self.outputs_map().dom(),
    {
        let r = self.outputs.ids();
        proof {
            let ks = r@.map_values(|d: DeviceId| d@);
            self.outputs.lemma_dom();
            assert(ks =~= self.outputs.keys());
            assert forall|a: int, b: int| 0 <= a < ks.len() && 0 <= b < ks.len() && a != b implies ks[a] != ks[b] by {
                self.outputs.lemma_keys_distinct(a, b);
            }
        }
        r
    }

    /// Number of active devices.
    pub fn count(&self) -> (r: usize)
        requires
            self.wf(),
        ensures
            r == self.outputs_map().dom().len(),
    {
        self.outputs.len()
    }
}

} // verus!
