use rucent::client::decode_broadcast;
use rucent::client::decode_channels;
use rucent::client::decode_history;
use rucent::client::decode_info;
use rucent::client::decode_presence;
use rucent::client::decode_presence_stats;
use rucent::client::decode_publish;
use rucent::errors::ClientError;

#[test]
fn publish_decodes_offset_and_epoch() {
    let r = decode_publish(br#"{"offset": 42, "epoch": "1789378957"}"#).unwrap();
    assert_eq!(r.offset, Some(42));
    assert_eq!(r.epoch, Some("1789378957".to_string()));
}

#[test]
fn publish_absent_fields_decode_to_none() {
    let r = decode_publish(b"{}").unwrap();
    assert_eq!(r.offset, None);
    assert_eq!(r.epoch, None);
    let r = decode_publish(br#"{"offset": null, "epoch": null}"#).unwrap();
    assert_eq!(r.offset, None);
    assert_eq!(r.epoch, None);
}

#[test]
fn publish_rejects_out_of_range_offset() {
    assert!(decode_publish(br#"{"offset": 65536}"#).is_err());
    assert!(decode_publish(br#"{"offset": -1}"#).is_err());
    assert!(decode_publish(br#"{"offset": 4.2}"#).is_err());
    assert!(decode_publish(br#"{"offset": 65535}"#).unwrap().offset == Some(65535));
}

#[test]
fn every_decoder_rejects_empty_input() {
    let empty: &[u8] = &[];
    assert!(matches!(decode_publish(empty), Err(ClientError::Decode)));
    assert!(matches!(decode_broadcast(empty), Err(ClientError::Decode)));
    assert!(matches!(decode_history(empty), Err(ClientError::Decode)));
    assert!(matches!(decode_channels(empty), Err(ClientError::Decode)));
    assert!(matches!(decode_info(empty), Err(ClientError::Decode)));
    assert!(matches!(decode_presence(empty), Err(ClientError::Decode)));
    assert!(matches!(decode_presence_stats(empty), Err(ClientError::Decode)));
}

#[test]
fn every_decoder_rejects_truncated_json() {
    let bad = br#"{"offset": 42"#;
    assert!(matches!(decode_publish(bad), Err(ClientError::Decode)));
    assert!(matches!(decode_broadcast(bad), Err(ClientError::Decode)));
    assert!(matches!(decode_history(bad), Err(ClientError::Decode)));
    assert!(matches!(decode_channels(bad), Err(ClientError::Decode)));
    assert!(matches!(decode_info(bad), Err(ClientError::Decode)));
    assert!(matches!(decode_presence(bad), Err(ClientError::Decode)));
    assert!(matches!(decode_presence_stats(bad), Err(ClientError::Decode)));
}

#[test]
fn broadcast_decodes_each_response_in_order() {
    let body = br#"{"responses": [
        {"error": null, "result": {"offset": 1, "epoch": "a"}},
        {"error": {"code": 100, "message": "internal server error"}, "result": {}}
    ]}"#;
    let r = decode_broadcast(body).unwrap();
    assert_eq!(r.responses.len(), 2);
    assert!(r.responses[0].error.is_none());
    assert_eq!(r.responses[0].result.offset, Some(1));
    assert_eq!(r.responses[0].result.epoch, Some("a".to_string()));
    let e = r.responses[1].error.as_ref().unwrap();
    assert_eq!(e.code, 100);
    assert_eq!(e.message, "internal server error");
}

#[test]
fn broadcast_requires_the_responses_field() {
    assert!(decode_broadcast(b"{}").is_err());
    assert!(decode_broadcast(br#"{"responses": null}"#).is_err());
}

#[test]
fn history_decodes_publications_offset_epoch() {
    let body = br#"{
        "publications": [
            {"offset": 3, "data": {"input": "first"}},
            {"offset": 4, "data": {"input": "second"},
             "info": {"user": "u1", "client": "c1"}}
        ],
        "offset": 4,
        "epoch": "xyz"
    }"#;
    let r = decode_history(body).unwrap();
    assert_eq!(r.offset, 4);
    assert_eq!(r.epoch, "xyz");
    assert_eq!(r.publication.len(), 2);
    assert_eq!(r.publication[0].offset, 3);
    assert!(r.publication[0].info.is_none());
    let info = r.publication[1].info.as_ref().unwrap();
    assert_eq!(info.user, "u1");
    assert_eq!(info.client, "c1");
}

#[test]
fn history_requires_all_fields() {
    assert!(decode_history(br#"{"publications": [], "offset": 0}"#).is_err());
    assert!(decode_history(br#"{"publications": [], "epoch": "e"}"#).is_err());
    assert!(decode_history(br#"{"offset": 0, "epoch": "e"}"#).is_err());
    assert!(decode_history(br#"{"publications": [], "offset": 0, "epoch": "e"}"#).is_ok());
}

#[test]
fn channels_decodes_the_channel_map() {
    let body = br#"{"channels": {"news": {"num_clients": 2}, "chat": {"num_clients": 7}}}"#;
    let r = decode_channels(body).unwrap();
    assert_eq!(r.channels.len(), 2);
    assert_eq!(r.channels[0].0, "news");
    assert_eq!(r.channels[0].1.num_clients, 2);
    assert_eq!(r.channels[1].0, "chat");
    assert_eq!(r.channels[1].1.num_clients, 7);
}

#[test]
fn info_decodes_the_node_list() {
    let body = br#"{"nodes": [{
        "uid": "n-1", "name": "node-one", "version": "5.0.1",
        "num_clients": 10, "num_users": 7, "num_channels": 3, "uptime": 120
    }]}"#;
    let r = decode_info(body).unwrap();
    assert_eq!(r.nodes.len(), 1);
    assert_eq!(r.nodes[0].uid, "n-1");
    assert_eq!(r.nodes[0].name, "node-one");
    assert_eq!(r.nodes[0].version, "5.0.1");
    assert_eq!(r.nodes[0].num_clients, 10);
    assert_eq!(r.nodes[0].num_users, 7);
    assert_eq!(r.nodes[0].num_channels, 3);
    assert_eq!(r.nodes[0].uptime, 120);
}

#[test]
fn presence_decodes_client_info_per_client() {
    let body = br#"{"presence": {
        "client-a": {"user": "u1", "client": "client-a", "conn_info": {"ip": "10.0.0.1"}},
        "client-b": {"user": "u2", "client": "client-b"}
    }}"#;
    let r = decode_presence(body).unwrap();
    assert_eq!(r.presence.len(), 2);
    assert_eq!(r.presence[0].0, "client-a");
    assert_eq!(r.presence[0].1.user, "u1");
    assert!(r.presence[0].1.conn_info.is_some());
    assert_eq!(r.presence[1].1.user, "u2");
    assert!(r.presence[1].1.chan_info.is_none());
}

#[test]
fn presence_stats_decodes_both_counters() {
    let r = decode_presence_stats(br#"{"num_users": 3, "num_clients": 5}"#).unwrap();
    assert_eq!(r.num_users, 3);
    assert_eq!(r.num_clients, 5);
    assert!(decode_presence_stats(br#"{"num_users": 3}"#).is_err());
}

#[test]
fn decoders_handle_string_escapes() {
    let r = decode_publish(r#"{"epoch": "a\nb\tA\u0042\ud83d\ude00\\"}"#.as_bytes()).unwrap();
    assert_eq!(r.epoch, Some("a\nb\tAB\u{1F600}\\".to_string()));
}

#[test]
fn decoders_reject_invalid_utf8() {
    let bad: &[u8] = &[0x7b, 0xff, 0x7d];
    assert!(decode_publish(bad).is_err());
}

#[test]
fn decoders_tolerate_whitespace_around_the_value() {
    let r = decode_publish(b" \t\r\n {\"offset\": 7} \n ").unwrap();
    assert_eq!(r.offset, Some(7));
}

#[test]
fn presence_keeps_one_entry_per_client_id() {
    let body = br#"{"presence": {
        "c": {"user": "old", "client": "c"},
        "d": {"user": "other", "client": "d"},
        "c": {"user": "new", "client": "c"}
    }}"#;
    let r = decode_presence(body).unwrap();
    assert_eq!(r.presence.len(), 2);
    assert_eq!(r.presence[0].0, "d");
    assert_eq!(r.presence[1].0, "c");
    assert_eq!(r.presence[1].1.user, "new");
}

#[test]
fn channels_keep_one_entry_per_name() {
    let body = br#"{"channels": {"a": {"num_clients": 1}, "a": {"num_clients": 9}}}"#;
    let r = decode_channels(body).unwrap();
    assert_eq!(r.channels.len(), 1);
    assert_eq!(r.channels[0].0, "a");
    assert_eq!(r.channels[0].1.num_clients, 9);
}
