use pozor_dom::protocol::{create_hub_broadcast, extract_hub_broadcast, is_hub_broadcast};
use pozor_dom::{add, cloud_url, cloud_url_with_host, hub_url};

#[test]
fn it_works() {
    let result = add(2, 2);
    assert_eq!(result, 4);
}

#[test]
fn test_cloud_url() {
    assert_eq!(cloud_url(), "ws://127.0.0.1:8081");
}

#[test]
fn test_hub_url() {
    assert_eq!(hub_url(), "ws://127.0.0.1:8082");
}

#[test]
fn test_hub_broadcast() {
    let msg = create_hub_broadcast("test message");
    assert!(is_hub_broadcast(&msg));
    assert_eq!(extract_hub_broadcast(&msg), "test message");
}

#[test]
fn test_cloud_url_with_host() {
    assert_eq!(cloud_url_with_host("10.0.0.2"), "ws://10.0.0.2:8081");
}
