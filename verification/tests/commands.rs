use rucent::client::Client;
use rucent::client::Config;
use rucent::json::Json;
use rucent::options::Disconnect;
use rucent::options::StreamPosition;
use rucent::options::with_disconnect;
use rucent::options::with_join_leave;
use rucent::options::with_limit;
use rucent::options::with_pattern;
use rucent::options::with_presence;
use rucent::options::with_recover_since;
use rucent::options::with_reverse;
use rucent::options::with_since;
use rucent::options::with_subscribe_client;
use rucent::options::with_subscribe_data;
use rucent::options::with_unsubscribe_client;

fn body_of(pipe: &rucent::pipe::Pipe) -> String {
    let client = Client::new(Config { addr: Some("u".to_string()), key: None });
    client.prepare_request("u".to_string(), &pipe.commands).body
}

fn fresh_pipe() -> rucent::pipe::Pipe {
    let client = Client::new(Config { addr: Some("u".to_string()), key: None });
    client.pipe()
}

#[test]
fn subscribe_options_serialize_in_declaration_order() {
    let mut pipe = fresh_pipe();
    pipe.add_subscribe(
        "news".to_string(),
        "u-1".to_string(),
        vec![
            with_presence(true),
            with_join_leave(false),
            with_subscribe_client("c-9".to_string()),
            with_subscribe_data(Json::Num("7".to_string())),
        ],
    )
    .unwrap();
    assert_eq!(
        body_of(&pipe),
        r#"{"method":"subscribe","params":{"channel":"news","user":"u-1","options":{"presence":true,"join_leave":false,"data":7,"client_id":"c-9"}}}"#
    );
}

#[test]
fn recover_since_serializes_the_stream_position() {
    let mut pipe = fresh_pipe();
    pipe.add_subscribe(
        "news".to_string(),
        "u-1".to_string(),
        vec![with_recover_since(StreamPosition {
            offset: Some(18446744073709551615),
            epoch: Some("xj".to_string()),
        })],
    )
    .unwrap();
    assert_eq!(
        body_of(&pipe),
        r#"{"method":"subscribe","params":{"channel":"news","user":"u-1","options":{"recover_since":{"offset":18446744073709551615,"epoch":"xj"}}}}"#
    );
}

#[test]
fn unsubscribe_takes_channel_user_and_client() {
    let mut pipe = fresh_pipe();
    pipe.add_unsubscribe(
        "news".to_string(),
        "u-1".to_string(),
        vec![with_unsubscribe_client("c-9".to_string())],
    )
    .unwrap();
    assert_eq!(
        body_of(&pipe),
        r#"{"method":"unsubscribe","params":{"channel":"news","user":"u-1","options":{"client_id":"c-9"}}}"#
    );
}

#[test]
fn disconnect_unset_parts_are_omitted() {
    let mut pipe = fresh_pipe();
    pipe.add_disconnect("u-1".to_string(), vec![with_disconnect(Disconnect::default())])
        .unwrap();
    assert_eq!(
        body_of(&pipe),
        r#"{"method":"disconnect","params":{"user":"u-1","options":{"disconnect":{}}}}"#
    );
}

#[test]
fn disconnect_with_no_options_sends_an_empty_object() {
    let mut pipe = fresh_pipe();
    pipe.add_disconnect("u-1".to_string(), vec![]).unwrap();
    assert_eq!(
        body_of(&pipe),
        r#"{"method":"disconnect","params":{"user":"u-1","options":{}}}"#
    );
}

#[test]
fn subscribe_rejects_a_payload_that_breaks_the_line_frame() {
    let mut pipe = fresh_pipe();
    let bad = Json::Num("4\n2".to_string());
    let r = pipe.add_subscribe("news".to_string(), "u-1".to_string(), vec![
        with_subscribe_data(bad),
    ]);
    assert!(r.is_err());
    assert_eq!(pipe.commands.len(), 0);
    pipe.add_subscribe("news".to_string(), "u-1".to_string(), vec![with_subscribe_data(
        Json::Num("42".to_string()),
    )])
    .unwrap();
    assert_eq!(pipe.commands.len(), 1);
}

#[test]
fn history_options_reach_the_wire() {
    let mut pipe = fresh_pipe();
    pipe.add_history(
        "news".to_string(),
        vec![
            with_since(StreamPosition { offset: Some(3), epoch: None }),
            with_limit(-1),
            with_reverse(true),
        ],
    )
    .unwrap();
    assert_eq!(
        body_of(&pipe),
        r#"{"method":"history","params":{"channel":"news","options":{"since":{"offset":3},"limit":-1,"reverse":true}}}"#
    );
}

#[test]
fn channels_pattern_is_omitted_when_unset() {
    let mut pipe = fresh_pipe();
    pipe.add_channels(vec![]).unwrap();
    assert_eq!(body_of(&pipe), r#"{"method":"channels","params":{}}"#);

    let mut pipe = fresh_pipe();
    pipe.add_channels(vec![with_pattern("news:*".to_string())]).unwrap();
    assert_eq!(
        body_of(&pipe),
        r#"{"method":"channels","params":{"pattern":"news:*"}}"#
    );
}

#[test]
fn broadcast_carries_every_channel_in_order() {
    let mut pipe = fresh_pipe();
    pipe.add_broadcast(
        vec!["a".to_string(), "b".to_string()],
        r#"[1, 2.5, "x", null, {"k": []}]"#,
        vec![],
    )
    .unwrap();
    assert_eq!(
        body_of(&pipe),
        r#"{"method":"broadcast","params":{"channels":["a","b"],"data":[1,2.5,"x",null,{"k":[]}],"options":{"skip_history":false}}}"#
    );
}

#[test]
fn raw_add_appends_after_helpers() {
    let mut pipe = fresh_pipe();
    pipe.add_info().unwrap();
    pipe.add_presence("p".to_string()).unwrap();
    assert_eq!(pipe.commands.len(), 2);
    assert_eq!(pipe.commands[0].method, "info");
    assert_eq!(pipe.commands[1].method, "presence");
}
