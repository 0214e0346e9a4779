use pozor_dom::protocol::{
    classify, create_cloud_message, create_echo_message, create_hub_broadcast,
    create_hub_message, create_welcome_message, extract_hub_broadcast, is_hub_broadcast,
    is_response_message, Envelope,
};

#[test]
fn frame_constructors() {
    assert_eq!(create_cloud_message("hello"), "[CLOUD] hello");
    assert_eq!(create_hub_message("hello"), "[HUB] hello");
    assert_eq!(create_welcome_message("Client"), "Welcome to Pozor-dom Client!");
    assert_eq!(create_echo_message("Cloud", "hi"), "Cloud received: hi");
    assert_eq!(create_hub_broadcast("x"), "HUB_BROADCAST: x");
}

#[test]
fn echo_is_always_a_response() {
    assert!(is_response_message(&create_echo_message("Hub", "anything")));
    assert!(is_response_message(&create_echo_message("", "")));
    assert!(!is_response_message("plain chat line"));
}

#[test]
fn tag_strip_round_trip() {
    let tagged = create_hub_broadcast("temperature report");
    assert_eq!(extract_hub_broadcast(&tagged), "temperature report");
    // Stripping is exact: content keeps its outer whitespace.
    assert_eq!(extract_hub_broadcast(&create_hub_broadcast(" x ")), " x ");
    // Untagged input passes through unchanged.
    assert_eq!(extract_hub_broadcast("  plain  "), "  plain  ");
    // The bare marker without its separator space is not stripped.
    assert_eq!(extract_hub_broadcast("HUB_BROADCAST:x"), "HUB_BROADCAST:x");
}

#[test]
fn classification_is_total_and_ordered() {
    assert_eq!(classify("HUB_BROADCAST: hi"), Envelope::HubRelay);
    assert_eq!(classify("Hub received: hi"), Envelope::EchoResponse);
    assert_eq!(classify("[CLOUD] hi"), Envelope::CloudRelay);
    assert_eq!(classify("[HUB] hi"), Envelope::CloudRelay);
    assert_eq!(classify("Welcome to Pozor-dom Client!"), Envelope::Welcome);
    assert_eq!(classify("just chatting"), Envelope::Raw);
    // The relay marker wins over the echo marker.
    assert_eq!(classify("HUB_BROADCAST: x received: y"), Envelope::HubRelay);
}

#[test]
fn hub_broadcast_detection() {
    assert!(is_hub_broadcast("HUB_BROADCAST:"));
    assert!(is_hub_broadcast("HUB_BROADCAST: payload"));
    assert!(!is_hub_broadcast("HUB_BROADCAST"));
    assert!(!is_hub_broadcast(" HUB_BROADCAST: payload"));
}
