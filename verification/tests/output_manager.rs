use zound::core_types::{DeviceId, Error};
use zound::output::{MasterControls, OutputManager, UNITY_GAIN_BITS, ZERO_GAIN_BITS};

#[test]
fn volume_bits_are_stored_as_given() {
    let mut m = OutputManager::new();
    let id = DeviceId::from_str("x");
    m.add(id.to_owned_id());
    m.set_volume(&id, 0.25f32.to_bits()).unwrap();
    assert_eq!(m.state(&id).unwrap().volume_bits, 0.25f32.to_bits());
    m.set_volume(&id, ZERO_GAIN_BITS).unwrap();
    assert_eq!(m.state(&id).unwrap().volume_bits, ZERO_GAIN_BITS);
    assert!(!m.state(&id).unwrap().muted);
}

#[test]
fn operations_on_missing_device_error() {
    let mut m = OutputManager::new();
    let id = DeviceId::from_str("missing");
    assert!(m.set_volume(&id, UNITY_GAIN_BITS).is_err());
    assert!(m.set_muted(&id, true).is_err());
    match m.set_muted(&id, true) {
        Err(Error::DeviceNotFound(name)) => assert_eq!(name, "missing"),
        _ => panic!("expected DeviceNotFound"),
    }
}

#[test]
fn master_default_is_unity_unmuted() {
    let m = MasterControls::new();
    assert_eq!(f32::from_bits(m.gain_bits()), 1.0);
    assert!(!m.muted());
    assert_eq!(f32::from_bits(m.effective_gain_bits()), 1.0);
}

#[test]
fn master_mute_overrides_gain() {
    let mut m = MasterControls::new();
    m.set_gain_bits(0.5f32.to_bits());
    assert_eq!(f32::from_bits(m.effective_gain_bits()), 0.5);
    m.set_muted(true);
    assert_eq!(f32::from_bits(m.effective_gain_bits()), 0.0);
    m.set_muted(false);
    assert_eq!(f32::from_bits(m.effective_gain_bits()), 0.5);
}

#[test]
fn master_gain_bits_are_stored_as_given() {
    let mut m = MasterControls::new();
    m.set_gain_bits(0.75f32.to_bits());
    assert_eq!(m.gain_bits(), 0.75f32.to_bits());
    m.set_gain_bits(ZERO_GAIN_BITS);
    assert_eq!(m.gain_bits(), ZERO_GAIN_BITS);
    assert!(!m.muted());
}

#[test]
fn output_manager_master_independent_devices() {
    let mut m = OutputManager::new();
    let a = DeviceId::from_str("device-a");
    let b = DeviceId::from_str("device-b");
    m.add(a.to_owned_id());
    m.add(b.to_owned_id());
    m.set_volume(&a, 0.25f32.to_bits()).unwrap();
    m.set_volume(&b, 0.75f32.to_bits()).unwrap();
    m.set_muted(&a, true).unwrap();
    assert_eq!(f32::from_bits(m.state(&a).unwrap().volume_bits), 0.25);
    assert_eq!(f32::from_bits(m.state(&b).unwrap().volume_bits), 0.75);
    assert!(m.state(&a).unwrap().muted);
    assert!(!m.state(&b).unwrap().muted);
    assert_eq!(m.count(), 2);
}

#[test]
fn added_device_has_default_state_and_remove_forgets_it() {
    let mut m = OutputManager::new();
    let a = DeviceId::from_str("a");
    m.add(a.to_owned_id());
    let s = m.state(&a).unwrap();
    assert_eq!(s.volume_bits, UNITY_GAIN_BITS);
    assert!(!s.muted);
    assert_eq!(s.balance_bits, ZERO_GAIN_BITS);
    let active = m.active();
    assert_eq!(active.len(), 1);
    assert_eq!(active[0].to_text(), "a");
    m.remove(&a);
    assert!(m.state(&a).is_none());
    assert_eq!(m.count(), 0);
    // Removing again is harmless.
    m.remove(&a);
    assert_eq!(m.count(), 0);
}

#[test]
fn master_through_manager() {
    let mut m = OutputManager::new();
    m.master_mut().set_muted(true);
    assert!(m.master().muted());
    assert_eq!(m.master().effective_gain_bits(), ZERO_GAIN_BITS);
    m.master_mut().set_muted(false);
    assert_eq!(m.master().effective_gain_bits(), UNITY_GAIN_BITS);
}
