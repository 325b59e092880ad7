use rucent::client::Client;
use rucent::client::Config;
use rucent::client::decode_publish;

#[test]
fn test_decode_publish_valid_json() {
    let json_data = r#"
        {
            "epoch": "1789378957",
            "offset": 42
        }"#;

    let result = decode_publish(json_data.as_bytes()).unwrap();
    assert_eq!(result.offset, Some(42));
}

#[test]
fn test_decode_publish_empty_slice() {
    let empty_slice: &[u8] = &[];
    let result = decode_publish(empty_slice);
    assert!(result.is_err());
}

#[test]
fn test_decode_publish_malformed_json() {
    let malformed_json = b"{\"channel\": \"test_channel\", \"offset\": 42";
    let result = decode_publish(malformed_json);
    assert!(result.is_err());
}

#[test]
fn test_client_new() {
    let addr = "http://127.0.0.1:8000/api".to_string();
    let api_key = "default_api_key_hex".to_string();
    let config = Config { addr: Some(addr.clone()), key: Some(api_key.clone()) };
    let client = Client::new(config);
    assert_eq!(client.endpoint, Some(addr));
    assert_eq!(client.api_key, Some(api_key));
}

#[test]
fn client_test_test_decode_publish_empty_slice() {
    let empty_slice: &[u8] = &[];
    let result = decode_publish(empty_slice);
    assert!(result.is_err());
}

#[test]
fn client_test_test_decode_publish_malformed_json() {
    let malformed_json = b"{\"channel\": \"test_channel\", \"offset\": 42";
    let result = decode_publish(malformed_json);
    assert!(result.is_err());
}
