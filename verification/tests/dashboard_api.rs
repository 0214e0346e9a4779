use pozor_dom::api::{
    devices_json, messages_json, route, toggle_cloud, toggle_response, ApiEndpoint,
};
use pozor_dom::bridge::ingest_telemetry;
use pozor_dom::cloudlink::{cloud_step, CloudCommand, CloudEvent, CloudLinkState};
use pozor_dom::hubstate::HubState;
use pozor_dom::store::DeviceStore;

#[test]
fn routes_and_unknown_paths() {
    assert_eq!(route("/", false), ApiEndpoint::Dashboard);
    assert_eq!(route("/api/devices", false), ApiEndpoint::Devices);
    assert_eq!(route("/api/messages", false), ApiEndpoint::Messages);
    assert_eq!(route("/api/toggle-cloud", true), ApiEndpoint::ToggleCloud);
    // The toggle needs a POST; unknown paths fall through.
    assert_eq!(route("/api/toggle-cloud", false), ApiEndpoint::NotFound);
    assert_eq!(route("/api/invalid", false), ApiEndpoint::NotFound);
    assert_eq!(route("/api/devices/1", true), ApiEndpoint::NotFound);
}

#[test]
fn telemetry_shows_up_in_the_devices_endpoint() {
    let mut state = HubState::new("Hub");
    let mut store = DeviceStore::new();
    let payload = "{\"device_id\":\"dev-1\",\"channel\":\"WiFi\",\"temperature\":\"21.00\",\
                   \"humidity\":\"55.00\",\"signal_strength\":-45,\
                   \"timestamp\":\"2024-01-01T00:00:00Z\"}";
    assert!(ingest_telemetry(payload, &mut state, &mut store));

    let body = devices_json(&state.devices);
    assert!(body.starts_with('['));
    assert!(body.ends_with(']'));
    assert!(body.contains("\"device_id\":\"dev-1\""));
    assert!(body.contains("\"temperature\":\"21.00\""));
}

#[test]
fn malformed_telemetry_never_reaches_the_devices_endpoint() {
    let mut state = HubState::new("Hub");
    let mut store = DeviceStore::new();
    assert!(!ingest_telemetry("{\"device_id\":oops}", &mut state, &mut store));
    assert_eq!(devices_json(&state.devices), "[]");

    let valid = "{\"device_id\":\"dev-3\",\"channel\":\"WiFi\",\"temperature\":\"20.00\",\
                 \"humidity\":\"50.00\",\"signal_strength\":-40,\
                 \"timestamp\":\"2024-01-01T00:00:00Z\"}";
    assert!(ingest_telemetry(valid, &mut state, &mut store));
    assert!(devices_json(&state.devices).contains("dev-3"));
    assert!(!devices_json(&state.devices).contains("oops"));
}

#[test]
fn messages_endpoint_serializes_the_log() {
    let mut state = HubState::new("Hub");
    assert_eq!(messages_json(&state.messages), "[]");
    state.add_message(String::from("first"));
    state.add_message(String::from("with \"quotes\""));
    assert_eq!(messages_json(&state.messages), "[\"first\",\"with \\\"quotes\\\"\"]");
}

#[test]
fn toggle_from_enabled_disconnects() {
    let mut state = HubState::new("Hub");
    let mut store = DeviceStore::new();
    // Bring the live flag to the durable default: enabled.
    state.toggle_cloud();
    assert!(state.cloud_enabled);

    let (body, command) = toggle_cloud(&mut state, &mut store);
    assert!(!state.cloud_enabled);
    assert!(!store.get_cloud_enabled(), "the new flag value is durable before returning");
    assert_eq!(command, CloudCommand::Disconnect);
    assert_eq!(body, "{\"cloud_enabled\":false,\"message\":\"Cloud disabled for Hub\"}");

    // The supervisor lands in Disconnected on that command, whatever
    // it was doing.
    let (s, _) = cloud_step(CloudLinkState::Connected, CloudEvent::Command(command));
    assert_eq!(s, CloudLinkState::Disconnected);

    // A second toggle restores the original value and reconnects.
    let (body, command) = toggle_cloud(&mut state, &mut store);
    assert!(state.cloud_enabled);
    assert!(store.get_cloud_enabled());
    assert_eq!(command, CloudCommand::Connect);
    assert_eq!(body, "{\"cloud_enabled\":true,\"message\":\"Cloud enabled for Hub\"}");
}

#[test]
fn toggle_response_escapes_the_service_name() {
    assert_eq!(
        toggle_response(true, "a\"b"),
        "{\"cloud_enabled\":true,\"message\":\"Cloud enabled for a\\\"b\"}"
    );
}
