use pozor_dom::hubstate::HubState;
use pozor_dom::store::DeviceStore;
use pozor_dom::telemetry::DeviceTelemetry;

fn telemetry(id: &str, channel: &str, temp: &str, hum: &str, sig: i32) -> DeviceTelemetry {
    DeviceTelemetry {
        device_id: String::from(id),
        channel: String::from(channel),
        temperature: String::from(temp),
        humidity: String::from(hum),
        signal_strength: sig,
        timestamp: chrono::Local::now().to_rfc3339(),
    }
}

fn find<'a>(state: &'a HubState, id: &str) -> Option<&'a DeviceTelemetry> {
    state.devices.iter().find(|d| d.device_id == id)
}

#[test]
fn unit_test_device_telemetry_creation() {
    let t = telemetry("test-device-001", "WiFi", "23.5", "65.0", -50);
    assert_eq!(t.device_id, "test-device-001");
    assert_eq!(t.channel, "WiFi");
    assert_eq!(t.temperature, "23.5");
    assert_eq!(t.humidity, "65.0");
    assert_eq!(t.signal_strength, -50);
    assert!(!t.timestamp.is_empty());
}

#[test]
fn unit_test_hub_state_operations() {
    let mut hub_state = HubState::new("Test Hub");

    assert_eq!(hub_state.service_name, "Test Hub");
    assert!(!hub_state.cloud_enabled);
    assert!(hub_state.devices.is_empty());
    assert!(hub_state.messages.is_empty());

    hub_state.update_device(telemetry("device-001", "WiFi", "22.0", "60.0", -40));
    assert_eq!(hub_state.devices.len(), 1);
    assert!(find(&hub_state, "device-001").is_some());

    assert!(!hub_state.cloud_enabled);
    hub_state.toggle_cloud();
    assert!(hub_state.cloud_enabled);
    hub_state.toggle_cloud();
    assert!(!hub_state.cloud_enabled);

    hub_state.add_message(String::from("Test message"));
    assert_eq!(hub_state.messages.len(), 1);
    assert_eq!(hub_state.messages[0], "Test message");
}

#[test]
fn white_box_test_hub_state_device_management() {
    let mut hub_state = HubState::new("Test Hub");

    hub_state.update_device(telemetry("device-001", "WiFi", "22.0", "60.0", -40));
    assert_eq!(hub_state.devices.len(), 1);
    assert!(find(&hub_state, "device-001").is_some());

    hub_state.update_device(telemetry("device-001", "WiFi", "25.0", "60.0", -40));
    assert_eq!(hub_state.devices.len(), 1);
    assert_eq!(find(&hub_state, "device-001").unwrap().temperature, "25.0");

    hub_state.update_device(telemetry("device-002", "BLE", "20.0", "55.0", -60));
    assert_eq!(hub_state.devices.len(), 2);
    assert!(find(&hub_state, "device-001").is_some());
    assert!(find(&hub_state, "device-002").is_some());
}

#[test]
fn message_log_keeps_the_newest_hundred() {
    let mut hub_state = HubState::new("Hub");
    let mut i: usize = 0;
    while i < 105 {
        hub_state.add_message(format!("m{}", i));
        i += 1;
    }
    assert_eq!(hub_state.messages.len(), 100);
    assert_eq!(hub_state.messages[0], "m5");
    assert_eq!(hub_state.messages[99], "m104");
}

#[test]
fn save_then_load_returns_the_record() {
    let mut store = DeviceStore::new();
    let t = telemetry("dev-9", "ZigBee", "19.5", "40.0", -70);
    store.save_device(&t);
    let loaded = store.load_devices();
    let found = loaded.iter().find(|d| d.device_id == "dev-9").unwrap();
    assert_eq!(found.channel, "ZigBee");
    assert_eq!(found.temperature, "19.5");
    assert_eq!(found.humidity, "40.0");
    assert_eq!(found.signal_strength, -70);
}

#[test]
fn save_is_last_write_wins_and_most_recent_first() {
    let mut store = DeviceStore::new();
    store.save_device(&telemetry("a", "WiFi", "1", "1", -1));
    store.save_device(&telemetry("b", "WiFi", "2", "2", -2));
    store.save_device(&telemetry("a", "WiFi", "3", "3", -3));
    let loaded = store.load_devices();
    assert_eq!(loaded.len(), 2);
    // The latest save comes first, and fully replaced the earlier "a".
    assert_eq!(loaded[0].device_id, "a");
    assert_eq!(loaded[0].temperature, "3");
    assert_eq!(loaded[1].device_id, "b");
}

#[test]
fn cloud_flag_defaults_true_and_toggles_back() {
    let mut store = DeviceStore::new();
    assert!(store.get_cloud_enabled(), "unset flag reads as enabled");
    let first = store.toggle_cloud_enabled();
    assert!(!first);
    assert!(!store.get_cloud_enabled());
    let second = store.toggle_cloud_enabled();
    assert!(second);
    assert!(store.get_cloud_enabled(), "two toggles restore the original value");
}
