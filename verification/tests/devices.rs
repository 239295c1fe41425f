use jabberwok::config::devices::{
    device_prefs_for_current_host, persist_cleared_device_preference, resolve_device,
    short_hostname, update_device_preference, DeviceChoice,
};
use jabberwok::config::schema::{DevicePrefs, DevicesConfig, JabberwokConfig};
use jabberwok::devices::{
    format_device_lines, list_device_lines, resolve_device_selector, select_device,
    DeviceInventory, SelectDeviceError, SelectorError,
};

fn names(items: &[&str]) -> Vec<String> {
    items.iter().map(|s| s.to_string()).collect()
}

#[test]
fn resolve_device_selector_index_in_range() {
    let n = names(&["USB", "Mic"]);
    let resolved = resolve_device_selector(&n, "2").unwrap();
    assert_eq!(resolved.as_deref(), Some("Mic"));
}

#[test]
fn resolve_device_selector_index_out_of_range_is_error() {
    let n = names(&["USB", "Mic"]);
    let err = resolve_device_selector(&n, "3").unwrap_err();
    assert!(err.message().contains("out of range"), "error was: {}", err.message());
}

#[test]
fn resolve_device_selector_zero_clears() {
    let n = names(&["USB"]);
    assert_eq!(resolve_device_selector(&n, "0").unwrap(), None);
    assert_eq!(resolve_device_selector(&n, "").unwrap(), None);
}

#[test]
fn resolve_device_selector_exact_name_is_case_insensitive() {
    let n = names(&["My USB Audio", "Built-in Mic"]);
    assert_eq!(
        resolve_device_selector(&n, "my usb audio").unwrap().as_deref(),
        Some("My USB Audio")
    );
}

#[test]
fn resolve_device_selector_partial_name_unambiguous() {
    let n = names(&["My USB Audio", "Built-in Mic"]);
    assert_eq!(resolve_device_selector(&n, "usb").unwrap().as_deref(), Some("My USB Audio"));
}

#[test]
fn resolve_device_selector_ambiguous_partial_match_is_error() {
    let n = names(&["USB Mic", "USB Speaker"]);
    let err = resolve_device_selector(&n, "usb").unwrap_err();
    assert!(err.message().contains("ambiguous selector"), "error was: {}", err.message());
}

#[test]
fn resolve_device_selector_no_match_is_error() {
    let n = names(&["USB Mic", "Speaker"]);
    let err = resolve_device_selector(&n, "does-not-exist").unwrap_err();
    assert!(err.message().contains("no device matched"), "error was: {}", err.message());
}

fn empty_inventory() -> DeviceInventory {
    DeviceInventory {
        default_input_name: None,
        default_output_name: None,
        input_names: Vec::new(),
        output_names: Vec::new(),
    }
}

#[test]
fn select_device_clears_output_pref_for_target_host_and_preserves_others() {
    let mut config = JabberwokConfig::default();
    config.devices.insert(
        "other",
        DevicePrefs {
            input: Some("Other Input".to_string()),
            output: Some("Other Output".to_string()),
        },
    );
    let _ = select_device(None, Some("0"), "localhost", &empty_inventory(), &mut config.devices)
        .unwrap();

    assert!(config.devices.contains_key("other"));
    let other = config.devices.get("other").unwrap();
    assert_eq!(other.input.as_deref(), Some("Other Input"));
    assert_eq!(other.output.as_deref(), Some("Other Output"));

    let localhost = config.devices.get("localhost").unwrap();
    assert_eq!(localhost.input, None);
    assert_eq!(localhost.output, None);
}

#[test]
fn select_device_preserves_input_pref_when_only_output_is_changed() {
    let mut config = JabberwokConfig::default();
    config.devices.insert(
        "localhost",
        DevicePrefs {
            input: Some("Existing Mic".to_string()),
            output: Some("Existing Speaker".to_string()),
        },
    );
    let (input_sel, output_sel) =
        select_device(None, Some("0"), "localhost", &empty_inventory(), &mut config.devices)
            .unwrap();
    let localhost = config.devices.get("localhost").unwrap();
    assert_eq!(localhost.input.as_deref(), Some("Existing Mic"));
    assert_eq!(localhost.output.as_deref(), None);
    assert_eq!(input_sel, None);
    assert_eq!(output_sel, None);
}

#[test]
fn select_device_creates_missing_config_file() {
    let mut config = JabberwokConfig::default();
    let _ = select_device(Some("0"), None, "default", &empty_inventory(), &mut config.devices)
        .unwrap();
    assert!(config.devices.contains_key("default"));
}

#[test]
fn list_devices_includes_indices_selected_and_default() {
    let inventory = DeviceInventory {
        default_input_name: Some("Mic".to_string()),
        default_output_name: Some("Built-in".to_string()),
        input_names: names(&["Mic", "USB Mic"]),
        output_names: names(&["Built-in"]),
    };
    let prefs = DevicePrefs {
        input: Some("USB Mic".to_string()),
        output: Some("Built-in".to_string()),
    };
    let lines = list_device_lines(&inventory, &prefs, "macbook-pro", false);

    assert_eq!(lines[0], "Devices for host: macbook-pro");
    assert_eq!(lines[2], "Output devices:");
    assert_eq!(lines[3], " 1*  Built-in (default)");
    assert_eq!(lines[5], "Input devices:");
    assert_eq!(lines[6], " 1   Mic (default)");
    assert_eq!(lines[7], " 2*  USB Mic");
    assert_eq!(lines[9], "* = currently active or selected");
}

#[test]
fn list_devices_marks_default_when_no_selection_is_set() {
    let inventory = DeviceInventory {
        default_input_name: Some("Mic".to_string()),
        default_output_name: Some("Built-in".to_string()),
        input_names: names(&["Mic", "USB Mic"]),
        output_names: names(&["Built-in"]),
    };
    let prefs = DevicePrefs::default();
    let lines = list_device_lines(&inventory, &prefs, "mba", false);

    assert_eq!(lines[3], " 1*  Built-in (default)");
    assert_eq!(lines[5], "Input devices:");
    assert_eq!(lines[6], " 1*  Mic (default)");
    assert_eq!(lines[7], " 2   USB Mic");
    assert_eq!(lines[9], "* = currently active or selected");
}

#[test]
fn list_devices_includes_fallback_header() {
    let inventory = DeviceInventory {
        default_input_name: None,
        default_output_name: None,
        input_names: names(&["Mic"]),
        output_names: names(&["Spk"]),
    };
    let prefs = DevicePrefs::default();
    let lines = list_device_lines(&inventory, &prefs, "studio-mac", true);
    assert_eq!(lines[0], r#"Devices for host: studio-mac (using "default" config)"#);
}

#[test]
fn persist_cleared_device_preference_writes_current_host_effective_prefs() {
    let mut config = JabberwokConfig::default();
    config.devices.insert(
        "default",
        DevicePrefs {
            input: Some("USB Mic".to_string()),
            output: Some("Bluetooth Headphones".to_string()),
        },
    );
    let effective = DevicePrefs { input: Some("USB Mic".to_string()), output: None };
    persist_cleared_device_preference(&mut config, "work-mac", &effective);

    let host = config.devices.get("work-mac").unwrap();
    assert_eq!(host.input.as_deref(), Some("USB Mic"));
    assert_eq!(host.output, None);
    let default = config.devices.get("default").unwrap();
    assert_eq!(default.input.as_deref(), Some("USB Mic"));
    assert_eq!(default.output.as_deref(), Some("Bluetooth Headphones"));
}

// Further cases.

#[test]
fn selector_error_messages() {
    let e = SelectorError::IndexOutOfRange { index: 3, len: 2 };
    assert_eq!(e.message(), "device index 3 is out of range; expected 1..=2");
    let e = resolve_device_selector(&names(&["USB Mic", "USB Speaker"]), "usb").unwrap_err();
    assert_eq!(e.message(), "ambiguous selector \"usb\"; matches: USB Mic, USB Speaker");
    let e = resolve_device_selector(&names(&["A", "B"]), "zz").unwrap_err();
    assert_eq!(e.message(), "no device matched \"zz\"; available: A, B");
    let e = resolve_device_selector(&names(&["mic", "MIC"]), "Mic").unwrap_err();
    assert!(matches!(e, SelectorError::Ambiguous { .. }));
}

#[test]
fn select_device_requires_a_selector_and_stops_on_bad_one() {
    let mut devices = DevicesConfig::new();
    let err = select_device(None, None, "h", &empty_inventory(), &mut devices).unwrap_err();
    assert_eq!(err.message(), "select-device requires --input and/or --output");
    let inventory = DeviceInventory {
        default_input_name: None,
        default_output_name: None,
        input_names: names(&["Mic"]),
        output_names: names(&["Spk"]),
    };
    let err = select_device(Some("5"), Some("1"), "h", &inventory, &mut devices).unwrap_err();
    assert!(matches!(err, SelectDeviceError::Selector(SelectorError::IndexOutOfRange { index: 5, len: 1 })));
    assert!(!devices.contains_key("h"));
    let (i, o) = select_device(Some("mic"), Some("1"), "h", &inventory, &mut devices).unwrap();
    assert_eq!(i.as_deref(), Some("Mic"));
    assert_eq!(o.as_deref(), Some("Spk"));
    assert_eq!(devices.get("h").unwrap().output.as_deref(), Some("Spk"));
}

#[test]
fn format_device_lines_pads_index_to_two_columns() {
    let many: Vec<String> = (1..=10).map(|i| format!("D{i}")).collect();
    let lines = format_device_lines(&many, &None, &Some("D10".to_string()));
    assert_eq!(lines[0], " 1   D1");
    assert_eq!(lines[9], "10*  D10");
}

#[test]
fn resolve_device_prefers_listed_device_and_clears_stale_one() {
    let mut prefs = DevicePrefs { input: Some("USB".to_string()), output: Some("Gone".to_string()) };
    let available = names(&["Built-in", "USB"]);
    assert_eq!(resolve_device(&mut prefs, true, &available), DeviceChoice::Listed(1));
    assert_eq!(prefs.input.as_deref(), Some("USB"));
    assert_eq!(resolve_device(&mut prefs, false, &available), DeviceChoice::SystemDefault);
    assert_eq!(prefs.output, None);
    assert_eq!(prefs.input.as_deref(), Some("USB"));
}

#[test]
fn host_preferences_fall_back_to_default_entry() {
    let mut devices = DevicesConfig::new();
    devices.insert("default", DevicePrefs { input: Some("A".to_string()), output: None });
    assert_eq!(device_prefs_for_current_host(&devices, "mac").input.as_deref(), Some("A"));
    devices.insert("mac", DevicePrefs { input: None, output: Some("B".to_string()) });
    let p = device_prefs_for_current_host(&devices, "mac");
    assert_eq!(p.input, None);
    assert_eq!(p.output.as_deref(), Some("B"));
    let empty = DevicesConfig::new();
    assert_eq!(device_prefs_for_current_host(&empty, "mac").input, None);
}

#[test]
fn short_hostname_drops_domain() {
    assert_eq!(short_hostname(Some("studio.local".to_string())), "studio");
    assert_eq!(short_hostname(None), "unknown");
}

#[test]
fn update_device_preference_records_choice_for_host_and_cache() {
    let mut config = JabberwokConfig::default();
    let mut cached = DevicePrefs::default();
    update_device_preference(&mut config, "mac", &mut cached, false, Some("Spk".to_string()));
    assert_eq!(cached.output.as_deref(), Some("Spk"));
    assert_eq!(config.devices.get("mac").unwrap().output.as_deref(), Some("Spk"));
    assert_eq!(config.devices.get("mac").unwrap().input, None);
}

#[test]
fn list_devices_succeeds() {
    let lines = list_device_lines(&empty_inventory(), &DevicePrefs::default(), "localhost", false);
    assert!(!lines.is_empty());
}
