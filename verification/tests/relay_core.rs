use pozor_dom::bridge::ingest_telemetry;
use pozor_dom::cloudlink::{
    cloud_step, CloudAction, CloudCommand, CloudEvent, CloudLinkState,
};
use pozor_dom::commands::{dispatch, DispatchError};
use pozor_dom::hubstate::HubState;
use pozor_dom::registry::PeerRegistry;
use pozor_dom::router::{cloud_handle_text, hub_cloud_outbound, hub_from_cloud};
use pozor_dom::store::DeviceStore;

#[test]
fn broadcast_reaches_exactly_the_others() {
    let mut reg = PeerRegistry::new();
    reg.register(String::from("10.0.0.1:50000"));
    reg.register(String::from("10.0.0.2:50001"));
    reg.register(String::from("10.0.0.3:50002"));
    let targets = reg.broadcast_targets("10.0.0.2:50001");
    assert_eq!(targets.len(), 2);
    assert!(targets.contains(&String::from("10.0.0.1:50000")));
    assert!(targets.contains(&String::from("10.0.0.3:50002")));
    assert!(!targets.contains(&String::from("10.0.0.2:50001")));
}

#[test]
fn register_overwrites_and_unregister_is_idempotent() {
    let mut reg = PeerRegistry::new();
    reg.register(String::from("a"));
    reg.register(String::from("a"));
    assert_eq!(reg.len(), 1);
    reg.unregister("a");
    assert_eq!(reg.len(), 0);
    reg.unregister("a");
    assert_eq!(reg.len(), 0);
}

#[test]
fn hub_forwards_fresh_chat_tagged_and_telemetry_verbatim() {
    let chat = hub_cloud_outbound("hello from a peer").unwrap();
    assert_eq!(chat, "HUB_BROADCAST: hello from a peer");

    let telemetry = "{\"device_id\":\"dev-1\",\"channel\":\"WiFi\",\"temperature\":\"21.00\",\
                     \"humidity\":\"55.00\",\"signal_strength\":-45,\
                     \"timestamp\":\"2024-01-01T00:00:00Z\"}";
    assert_eq!(hub_cloud_outbound(telemetry).unwrap(), telemetry);

    // Already-relayed, labeled, echoed or greeting content stays home.
    assert!(hub_cloud_outbound("HUB_BROADCAST: once").is_none());
    assert!(hub_cloud_outbound("[CLOUD] shown").is_none());
    assert!(hub_cloud_outbound("[HUB] shown").is_none());
    assert!(hub_cloud_outbound("Hub received: x").is_none());
    assert!(hub_cloud_outbound("Welcome to Pozor-dom Client!").is_none());
}

#[test]
fn one_hop_rule_scenario() {
    // A tagged frame from the cloud is stripped and displayed...
    let local = hub_from_cloud("HUB_BROADCAST: cloud says hi").unwrap();
    assert_eq!(local, "[CLOUD] cloud says hi");
    // ...and its local copy is never forwarded toward the cloud again.
    assert!(hub_cloud_outbound(&local).is_none());
    // Echo-responses from the cloud are dropped outright.
    assert!(hub_from_cloud("Cloud received: x").is_none());
    // Anything else passes verbatim.
    assert_eq!(hub_from_cloud("[10.0.0.9:1] chat").unwrap(), "[10.0.0.9:1] chat");
}

#[test]
fn cloud_relays_chat_and_acknowledges_once() {
    let mut reg = PeerRegistry::new();
    reg.register(String::from("p1"));
    reg.register(String::from("p2"));
    reg.register(String::from("p3"));
    let plan = cloud_handle_text(&reg, "p2", "hello");
    assert!(plan.telemetry.is_none());
    assert_eq!(plan.sends.len(), 2);
    assert_eq!(plan.sends[0].0, "p1");
    assert_eq!(plan.sends[0].1, "[p2] hello");
    assert_eq!(plan.sends[1].0, "p3");
    assert_eq!(plan.sends[1].1, "[p2] hello");
    assert_eq!(plan.echo.unwrap(), "Cloud received: hello");
}

#[test]
fn cloud_never_echoes_an_echo() {
    let mut reg = PeerRegistry::new();
    reg.register(String::from("p1"));
    reg.register(String::from("p2"));
    let plan = cloud_handle_text(&reg, "p1", "Client received: hi");
    assert!(plan.echo.is_none(), "an echo-response is never acknowledged again");
    assert_eq!(plan.sends.len(), 1);
}

#[test]
fn cloud_unpacks_hub_relay_frames() {
    let mut reg = PeerRegistry::new();
    reg.register(String::from("hub"));
    reg.register(String::from("viewer"));

    // Telemetry inside the relay tag only updates the mirror.
    let telemetry = "{\"device_id\":\"dev-1\",\"channel\":\"WiFi\",\"temperature\":\"21.00\",\
                     \"humidity\":\"55.00\",\"signal_strength\":-45,\
                     \"timestamp\":\"2024-01-01T00:00:00Z\"}";
    let tagged = format!("HUB_BROADCAST: {}", telemetry);
    let plan = cloud_handle_text(&reg, "hub", &tagged);
    assert_eq!(plan.telemetry.unwrap().device_id, "dev-1");
    assert!(plan.sends.is_empty());
    assert!(plan.echo.is_none());

    // Other relayed content goes to every peer under the hub label.
    let plan = cloud_handle_text(&reg, "hub", "HUB_BROADCAST: hi all");
    assert!(plan.telemetry.is_none());
    assert_eq!(plan.sends.len(), 2);
    assert_eq!(plan.sends[0].1, "[HUB] hi all");
    assert!(plan.echo.is_none());
}

#[test]
fn supervisor_transitions() {
    let (s, a) = cloud_step(
        CloudLinkState::Disconnected,
        CloudEvent::Command(CloudCommand::Connect),
    );
    assert_eq!(s, CloudLinkState::Connecting);
    assert_eq!(a, CloudAction::OpenLink);

    let (s, a) = cloud_step(s, CloudEvent::LinkOpened);
    assert_eq!(s, CloudLinkState::Connected);
    assert_eq!(a, CloudAction::Idle);

    // A second connect is ignored while the link is up.
    let (s, a) = cloud_step(s, CloudEvent::Command(CloudCommand::Connect));
    assert_eq!(s, CloudLinkState::Connected);
    assert_eq!(a, CloudAction::Idle);

    // A failure re-enters the retry loop.
    let (s, a) = cloud_step(s, CloudEvent::LinkFailed);
    assert_eq!(s, CloudLinkState::Connecting);
    assert_eq!(a, CloudAction::RetryAfterDelay);

    // Disconnect aborts at once and stays down.
    let (s, a) = cloud_step(s, CloudEvent::Command(CloudCommand::Disconnect));
    assert_eq!(s, CloudLinkState::Disconnected);
    assert_eq!(a, CloudAction::AbortLink);
    let (s, a) = cloud_step(s, CloudEvent::LinkFailed);
    assert_eq!(s, CloudLinkState::Disconnected);
    assert_eq!(a, CloudAction::Idle);
}

#[test]
fn dispatch_routes_well_formed_commands() {
    let raw = "{\"type\":\"command\",\"device_id\":\"lamp-1\",\"channel\":\"ZigBee\",\
               \"action\":\"on\",\"timestamp\":\"t\"}";
    let (topic, payload) = dispatch(raw).unwrap();
    assert_eq!(topic, "pozor-dom/hub/command/lamp-1");
    assert_eq!(payload, raw);
}

#[test]
fn dispatch_rejects_malformed_commands() {
    let missing = "{\"type\":\"command\",\"device_id\":\"lamp-1\",\"channel\":\"ZigBee\"}";
    assert_eq!(dispatch(missing).unwrap_err(), DispatchError::InvalidFormat);
    assert_eq!(dispatch("{\"type\":\"chat\"}").unwrap_err(), DispatchError::NotCommand);
    assert_eq!(dispatch("not json").unwrap_err(), DispatchError::NotCommand);
}

#[test]
fn ingestion_is_resilient_to_malformed_frames() {
    let mut state = HubState::new("Hub");
    let mut store = DeviceStore::new();

    let malformed = "{\"device_id\":\"ghost\",";
    assert!(!ingest_telemetry(malformed, &mut state, &mut store));
    assert!(state.devices.is_empty());
    assert!(store.load_devices().is_empty());

    // A later valid frame is still processed.
    let valid = "{\"device_id\":\"dev-2\",\"channel\":\"BLE\",\"temperature\":\"18.00\",\
                 \"humidity\":\"51.00\",\"signal_strength\":-61,\
                 \"timestamp\":\"2024-01-01T00:00:00Z\"}";
    assert!(ingest_telemetry(valid, &mut state, &mut store));
    assert_eq!(state.devices.len(), 1);
    assert_eq!(store.load_devices()[0].device_id, "dev-2");
}
