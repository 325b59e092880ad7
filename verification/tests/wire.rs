use rucent::client::Client;
use rucent::client::Config;
use rucent::client::ack_from_replies;
use rucent::client::check_not_empty;
use rucent::client::check_reply_count;
use rucent::client::process_response;
use rucent::client::publish_from_replies;
use rucent::errors::ClientError;
use rucent::json::Json;
use rucent::json::json_to_string;
use rucent::options::with_skip_history;
use rucent::pipe::Pipe;

fn client_with_key() -> Client {
    Client::new(Config {
        addr: Some("http://127.0.0.1:8000/api".to_string()),
        key: Some("default_api_key_hex".to_string()),
    })
}

#[test]
fn empty_pipe_is_refused_before_any_request() {
    let client = client_with_key();
    let pipe = client.pipe();
    assert!(matches!(check_not_empty(&pipe), Err(ClientError::EmptyBatch)));
}

#[test]
fn reset_pipe_is_refused_like_a_fresh_one() {
    let client = client_with_key();
    let mut pipe = client.pipe();
    pipe.add_info().unwrap();
    assert!(check_not_empty(&pipe).is_ok());
    pipe.reset();
    assert!(matches!(check_not_empty(&pipe), Err(ClientError::EmptyBatch)));
}

#[test]
fn publish_command_takes_its_exact_wire_line() {
    let client = client_with_key();
    let mut pipe = client.pipe();
    pipe.add_publish("docs".to_string(), r#"{"input": "test1"}"#, vec![]).unwrap();
    let req = client.prepare_request("http://127.0.0.1:8000/api".to_string(), &pipe.commands);
    assert_eq!(
        req.body,
        r#"{"method":"publish","params":{"channel":"docs","data":{"input":"test1"},"options":{"skip_history":false}}}"#
    );
    assert_eq!(req.url, "http://127.0.0.1:8000/api");
    assert_eq!(req.authorization, Some("apikey default_api_key_hex".to_string()));
}

#[test]
fn skip_history_option_reaches_the_wire() {
    let client = client_with_key();
    let mut pipe = client.pipe();
    pipe.add_publish("docs".to_string(), "1", vec![with_skip_history(true)]).unwrap();
    let req = client.prepare_request("u".to_string(), &pipe.commands);
    assert_eq!(
        req.body,
        r#"{"method":"publish","params":{"channel":"docs","data":1,"options":{"skip_history":true}}}"#
    );
}

#[test]
fn commands_are_transmitted_in_append_order() {
    let client = client_with_key();
    let mut pipe = client.pipe();
    pipe.add_presence("one".to_string()).unwrap();
    pipe.add_history_remove("two".to_string()).unwrap();
    pipe.add_info().unwrap();
    let req = client.prepare_request("u".to_string(), &pipe.commands);
    let lines: Vec<&str> = req.body.lines().collect();
    assert_eq!(lines.len(), 3);
    assert_eq!(lines[0], r#"{"method":"presence","params":{"channel":"one"}}"#);
    assert_eq!(lines[1], r#"{"method":"history_remove","params":{"channel":"two"}}"#);
    assert_eq!(lines[2], r#"{"method":"info","params":{}}"#);
}

#[test]
fn malformed_payload_leaves_the_batch_unchanged() {
    let client = client_with_key();
    let mut pipe = client.pipe();
    let r = pipe.add_publish("docs".to_string(), r#"{"input": "#, vec![]);
    assert!(matches!(r, Err(ClientError::MalformedPayload)));
    assert_eq!(pipe.commands.len(), 0);
}

#[test]
fn no_authorization_without_a_key() {
    let client = Client::new(Config { addr: Some("u".to_string()), key: None });
    let mut pipe = client.pipe();
    pipe.add_info().unwrap();
    let req = client.prepare_request("u".to_string(), &pipe.commands);
    assert!(req.authorization.is_none());
}

#[test]
fn resolver_takes_precedence_over_the_static_endpoint() {
    let client = client_with_key();
    let chosen = client.select_endpoint(Some(Ok("http://other:9000/api".to_string()))).unwrap();
    assert_eq!(chosen, "http://other:9000/api");
    let fallback = client.select_endpoint(None).unwrap();
    assert_eq!(fallback, "http://127.0.0.1:8000/api");
    let failed = client.select_endpoint(Some(Err("resolver broke".to_string())));
    assert!(matches!(failed, Err(ClientError::EndpointResolutionFailed(m)) if m == "resolver broke"));
}

#[test]
fn ten_publishes_yield_ten_replies_in_order() {
    let client = client_with_key();
    let mut pipe = client.pipe();
    let count = 10;
    for i in 0..count {
        let payload = format!(r#"{{"input": "test{}"}}"#, i);
        pipe.add_publish("chan3".to_string(), &payload, vec![]).unwrap();
    }
    assert!(check_not_empty(&pipe).is_ok());
    let mut body = String::new();
    for i in 0..count {
        body.push_str(&format!(
            "{{\"error\": null, \"result\": {{\"offset\": {}, \"epoch\": \"e\"}}}}\n",
            i
        ));
    }
    let replies = process_response(200, body).unwrap();
    let replies = check_reply_count(pipe.commands.len(), replies).unwrap();
    assert_eq!(replies.len(), count);
    for (i, reply) in replies.iter().enumerate() {
        assert!(reply.error.is_none());
        let result = json_to_string(reply.result.as_ref().unwrap());
        assert_eq!(result, format!(r#"{{"offset":{},"epoch":"e"}}"#, i));
    }
}

#[test]
fn non_success_status_aborts_before_any_decoding() {
    let r = process_response(404, "this body is not JSON at all".to_string());
    match r {
        Err(ClientError::StatusCode(e)) => {
            assert_eq!(e.code, 404);
            assert_eq!(e.body, "this body is not JSON at all");
        },
        _ => panic!("expected a status code error"),
    }
    let r = process_response(199, "{}".to_string());
    assert!(matches!(r, Err(ClientError::StatusCode(_))));
    let r = process_response(300, "{}".to_string());
    assert!(matches!(r, Err(ClientError::StatusCode(_))));
}

#[test]
fn trailing_blank_line_decodes_to_the_same_replies() {
    let body = "{\"error\": null, \"result\": 1}\n{\"error\": null, \"result\": 2}";
    let with_newline = format!("{}\n", body);
    let with_blank_line = format!("{}\n\n", body);
    let a = process_response(200, body.to_string()).unwrap();
    let b = process_response(200, with_newline).unwrap();
    let c = process_response(200, with_blank_line).unwrap();
    assert_eq!(a.len(), 2);
    assert_eq!(b.len(), 2);
    assert_eq!(c.len(), 2);
}

#[test]
fn blank_and_cr_only_lines_are_skipped() {
    let body = "{\"error\": null, \"result\": 1}\n\n\r\n{\"error\": null, \"result\": 2}\r\n";
    let replies = process_response(200, body.to_string()).unwrap();
    assert_eq!(replies.len(), 2);
}

#[test]
fn undecodable_line_fails_the_whole_call() {
    let body = "{\"error\": null, \"result\": 1}\nnot json\n";
    let r = process_response(200, body.to_string());
    assert!(matches!(r, Err(ClientError::MalformedResponse)));
    let spaces_are_not_blank = " \n{}";
    let r = process_response(200, spaces_are_not_blank.to_string());
    assert!(matches!(r, Err(ClientError::MalformedResponse)));
}

#[test]
fn reply_count_mismatch_is_malformed() {
    let replies = process_response(200, "{\"error\": null, \"result\": 1}\n".to_string()).unwrap();
    let r = check_reply_count(2, replies);
    assert!(matches!(r, Err(ClientError::MalformedResponse)));
}

#[test]
fn remote_error_is_surfaced_from_the_first_reply() {
    let body = "{\"error\": {\"code\": 102, \"message\": \"namespace not found\"}, \"result\": null}";
    let replies = process_response(200, body.to_string()).unwrap();
    match publish_from_replies(replies) {
        Err(ClientError::Remote(e)) => {
            assert_eq!(e.code, 102);
            assert_eq!(e.message, "namespace not found");
        },
        _ => panic!("expected the remote error"),
    }
}

#[test]
fn absent_result_fails_the_typed_decode() {
    let replies = process_response(200, "{\"error\": null, \"result\": null}".to_string()).unwrap();
    assert!(matches!(publish_from_replies(replies), Err(ClientError::Decode)));
}

#[test]
fn no_reply_is_its_own_failure() {
    assert!(matches!(publish_from_replies(Vec::new()), Err(ClientError::NoReply)));
    assert!(matches!(ack_from_replies(Vec::new()), Err(ClientError::NoReply)));
}

#[test]
fn ack_succeeds_on_an_error_free_reply() {
    let replies = process_response(200, "{\"error\": null, \"result\": {}}".to_string()).unwrap();
    assert!(ack_from_replies(replies).is_ok());
}

#[test]
fn lock_contention_is_a_distinct_kind() {
    let e = ClientError::LockContention;
    assert!(matches!(e, ClientError::LockContention));
}

#[test]
fn json_serialization_escapes_and_numbers_are_exact() {
    let v = Json::Obj(vec![
        ("text".to_string(), Json::Str("a\"b\\c\nd\u{0001}".to_string())),
        ("list".to_string(), Json::Arr(vec![Json::Null, Json::Bool(true), Json::Num("-1.5e3".to_string())])),
    ]);
    assert_eq!(
        json_to_string(&v),
        r#"{"text":"a\"b\\c\nd\u0001","list":[null,true,-1.5e3]}"#
    );
}
