use zound::core_types::{DeviceId, DeviceInfo, DeviceKind};
use zound::devices::{
    collect_core_audio_devices, describe, device_dto, is_default_name, is_monitor_source,
    kind_label, list_all_devices, list_outputs, output_format, set_device_alias, total_channels,
    CoreAudioObject, DeviceAliases,
};
use zound::guard::CommandErrorKind;

fn info(name: &str, default: bool) -> DeviceInfo {
    DeviceInfo {
        id: DeviceId(name.to_string()),
        name: name.to_string(),
        kind: DeviceKind::Wired,
        sample_rate: 44_100,
        channels: 2,
        is_default: default,
        endpoint_id: Some(format!("ep:{name}")),
    }
}

#[test]
fn device_row_copies_fields() {
    let d = device_dto(&info("Speakers", true), false);
    assert_eq!(d.id, "Speakers");
    assert_eq!(d.name, "Speakers");
    assert_eq!(d.endpoint_id.as_deref(), Some("ep:Speakers"));
    assert_eq!(d.kind, "Wired");
    assert_eq!(d.sample_rate, 44_100);
    assert_eq!(d.channels, 2);
    assert!(d.is_default);
    assert!(!d.is_input_only);
    assert_eq!(kind_label(DeviceKind::Bluetooth), "Bluetooth");
    assert_eq!(kind_label(DeviceKind::Unknown), "Unknown");
}

#[test]
fn duplex_inputs_are_listed_once() {
    let outputs = vec![info("Speakers", true), info("Headset", false)];
    let inputs = vec![info("Headset", false), info("Mic", false)];
    let rows = list_all_devices(&outputs, &inputs);
    let names: Vec<_> = rows.iter().map(|r| (r.name.as_str(), r.is_input_only)).collect();
    assert_eq!(names, vec![("Speakers", false), ("Headset", false), ("Mic", true)]);
    assert_eq!(list_outputs(&outputs).len(), 2);
}

#[test]
fn monitor_and_default_names() {
    assert!(is_monitor_source(Some("alsa_output.pci.analog-stereo.monitor")));
    assert!(!is_monitor_source(Some("alsa_output.pci.analog-stereo")));
    assert!(!is_monitor_source(None));
    assert!(is_default_name(Some("A"), Some("A")));
    assert!(!is_default_name(Some("A"), Some("B")));
    assert!(!is_default_name(None, Some("A")));
    assert!(!is_default_name(Some("A"), None));
}

#[test]
fn describe_fills_defaults_and_endpoint() {
    let pairs = vec![
        ("Kitchen".to_string(), "wasapi:{1}".to_string()),
        ("Kitchen".to_string(), "wasapi:{2}".to_string()),
    ];
    let d = describe(Some("Kitchen".to_string()), None, true, Some(&pairs));
    assert_eq!(d.name, "Kitchen");
    assert_eq!(d.id.0, "Kitchen");
    assert_eq!((d.sample_rate, d.channels), (48_000, 2));
    assert!(d.is_default);
    assert_eq!(d.endpoint_id.as_deref(), Some("wasapi:{2}"));
    let d = describe(None, Some((96_000, 6)), false, None);
    assert_eq!(d.name, "unknown");
    assert_eq!((d.sample_rate, d.channels), (96_000, 6));
    assert_eq!(d.endpoint_id, None);
}

#[test]
fn core_audio_objects_without_channels_or_name_are_skipped() {
    let objects = vec![
        CoreAudioObject { id: 1, channels: 2, name: Some("Built-in".to_string()), sample_rate: None },
        CoreAudioObject { id: 2, channels: 0, name: Some("Mic".to_string()), sample_rate: Some(44_100) },
        CoreAudioObject { id: 3, channels: 2, name: None, sample_rate: Some(44_100) },
        CoreAudioObject { id: 4, channels: 8, name: Some("Interface".to_string()), sample_rate: Some(96_000) },
    ];
    let devs = collect_core_audio_devices(&objects, Some(4));
    assert_eq!(devs.len(), 2);
    assert_eq!(devs[0].name, "Built-in");
    assert_eq!(devs[0].sample_rate, 48_000);
    assert!(!devs[0].is_default);
    assert_eq!(devs[1].name, "Interface");
    assert_eq!(devs[1].channels, 8);
    assert!(devs[1].is_default);
    assert_eq!(output_format(0, Some(44_100)), None);
    assert_eq!(output_format(2, None), Some((48_000, 2)));
    assert_eq!(total_channels(&vec![2, 2]), 4);
    assert_eq!(total_channels(&vec![65_535, 3]), 65_535);
    assert_eq!(total_channels(&vec![65_537]), 1);
}

#[test]
fn device_aliases_set_get_clear() {
    let mut a = DeviceAliases::new();
    assert!(set_device_alias(&mut a, "wasapi:{abc}", Some("  Колонки на кухне ")).is_ok());
    assert_eq!(a.get("wasapi:{abc}").as_deref(), Some("Колонки на кухне"));
    assert!(set_device_alias(&mut a, "coreaudio:42", Some("AirPods")).is_ok());
    assert_eq!(a.entries().len(), 2);
    assert!(set_device_alias(&mut a, "coreaudio:42", Some("   ")).is_ok());
    assert_eq!(a.get("coreaudio:42"), None);
    assert!(set_device_alias(&mut a, "wasapi:{abc}", None).is_ok());
    assert!(a.entries().is_empty());
}

#[test]
fn device_alias_errors() {
    let mut a = DeviceAliases::new();
    let e = set_device_alias(&mut a, "  ", Some("x")).unwrap_err();
    assert_eq!(e.kind(), CommandErrorKind::BadRequest);
    assert_eq!(e.message(), "empty endpoint_id");
    let long: String = "я".repeat(81);
    let e = set_device_alias(&mut a, "ep", Some(&long)).unwrap_err();
    assert_eq!(e.kind(), CommandErrorKind::BadRequest);
    assert_eq!(e.message(), "alias too long (max 80 chars)");
    let ok: String = "я".repeat(80);
    assert!(set_device_alias(&mut a, "ep", Some(&ok)).is_ok());
    assert_eq!(a.get("ep"), Some(ok));
}
