//! The command model and the batch ("pipe"): an ordered, append-only (until
//! reset) sequence of commands. The order of appending is exactly the order
//! in which commands go on the wire, which is what positional reply
//! correlation rests on.
use vstd::prelude::*;

use crate::errors::ClientError;
use crate::json::Json;
use crate::json::JsonV;
use crate::json::hex_digit;
use crate::json::json_clone;
use crate::json::jsons_view;
use crate::json::lemma_one_line_elems_all;
use crate::json::lemma_one_line_members_app;
use crate::json::lemma_one_line_members_cons;
use crate::json::members_view;
use crate::json::no_nl;
use crate::json::one_line;
use crate::json::one_line_members;
use crate::json::ser_json;
use crate::options::ChannelsOption;
use crate::options::ChannelsOptions;
use crate::options::Disconnect;
use crate::options::DisconnectOption;
use crate::options::DisconnectOptions;
use crate::options::HistoryOption;
use crate::options::HistoryOptions;
use crate::options::PublishOption;
use crate::options::PublishOptions;
use crate::options::StreamPosition;
use crate::options::SubscribeOption;
use crate::options::SubscribeOptions;
use crate::options::UnsubscribeOption;
use crate::options::UnsubscribeOptions;
use crate::options::apply_channels_options;
use crate::options::apply_disconnect_options;
use crate::options::apply_history_options;
use crate::options::apply_publish_options;
use crate::options::apply_subscribe_options;
use crate::options::apply_unsubscribe_options;
use crate::parse::lemma_parsed_json_one_line;

verus! {

broadcast use vstd::std_specs::vec::group_vec_axioms, vstd::seq::group_seq_axioms;

/// Request payload of the publish command.
#[derive(Debug)]
pub struct PublishRequest {
    pub channel: String,
    pub data: Json,
    pub options: PublishOptions,
}

/// Request payload of the broadcast command.
#[derive(Debug)]
pub struct BroadcastRequest {
    pub channels: Vec<String>,
    pub data: Json,
    pub options: PublishOptions,
}

/// Request payload of the subscribe command.
#[derive(Debug)]
pub struct SubscribeRequest {
    pub channel: String,
    pub user: String,
    pub options: SubscribeOptions,
}

/// Request payload of the unsubscribe command.
#[derive(Debug)]
pub struct UnsubscribeRequest {
    pub channel: String,
    pub user: String,
    pub options: UnsubscribeOptions,
}

/// Request payload of the disconnect command.
#[derive(Debug)]
pub struct DisconnectRequest {
    pub user: String,
    pub options: DisconnectOptions,
}

/// Request payload of the history command.
#[derive(Debug)]
pub struct HistoryRequest {
    pub channel: String,
    pub options: HistoryOptions,
}

/// Request payload of the channels command.
#[derive(Debug)]
pub struct ChannelsRequest {
    pub pattern: Option<String>,
}

/// The tagged union of request payload shapes; the discriminant is not
/// serialized, it lives in the sibling method field of [`Command`].
#[derive(Debug)]
pub enum RequestKind {
    ChannelsRequest(ChannelsRequest),
    PublishRequest(PublishRequest),
    BroadcastRequest(BroadcastRequest),
    SubscribeRequest(SubscribeRequest),
    UnsubscribeRequest(UnsubscribeRequest),
    DisconnectRequest(DisconnectRequest),
    HistoryRequest(HistoryRequest),
    Value(Json),
}

/// One API command: a method name and its parameters.
#[derive(Debug)]
pub struct Command {
    pub method: String,
    pub params: RequestKind,
}

/// The decimal text of a natural number.
pub open spec fn dec_str(n: nat) -> Seq<char>
    decreases n,
{
    if n < 10 {
        seq![hex_digit(n as int)]
    } else {
        dec_str(n / 10) + seq![hex_digit((n % 10) as int)]
    }
}

/// A member present only when the option is set.
pub open spec fn opt_member(key: Seq<char>, v: Option<JsonV>) -> Seq<(Seq<char>, JsonV)> {
    match v {
        Some(j) => seq![(key, j)],
        None => Seq::empty(),
    }
}

/// Publish and broadcast options on the wire.
pub open spec fn publish_options_json(o: PublishOptions) -> JsonV {
    JsonV::Obj(seq![("skip_history"@, JsonV::Bool(o.skip_history))])
}

/// A stream position on the wire: unset parts are omitted.
pub open spec fn stream_position_json(p: StreamPosition) -> JsonV {
    JsonV::Obj(
        opt_member(
            "offset"@,
            match p.offset {
                Some(n) => Some(JsonV::Num(dec_str(n as nat))),
                None => None,
            },
        ) + opt_member(
            "epoch"@,
            match p.epoch {
                Some(e) => Some(JsonV::Str(e@)),
                None => None,
            },
        ),
    )
}

/// Subscribe options on the wire: unset options are omitted.
pub open spec fn subscribe_options_json(o: SubscribeOptions) -> JsonV {
    JsonV::Obj(
        opt_member(
            "info"@,
            match o.info {
                Some(v) => Some(v@),
                None => None,
            },
        ) + opt_member(
            "presence"@,
            match o.presence {
                Some(b) => Some(JsonV::Bool(b)),
                None => None,
            },
        ) + opt_member(
            "join_leave"@,
            match o.join_leave {
                Some(b) => Some(JsonV::Bool(b)),
                None => None,
            },
        ) + opt_member(
            "position"@,
            match o.position {
                Some(b) => Some(JsonV::Bool(b)),
                None => None,
            },
        ) + opt_member(
            "recover"@,
            match o.recover {
                Some(b) => Some(JsonV::Bool(b)),
                None => None,
            },
        ) + opt_member(
            "data"@,
            match o.data {
                Some(v) => Some(v@),
                None => None,
            },
        ) + opt_member(
            "recover_since"@,
            match o.recover_since {
                Some(p) => Some(stream_position_json(p)),
                None => None,
            },
        ) + opt_member(
            "client_id"@,
            match o.client_id {
                Some(c) => Some(JsonV::Str(c@)),
                None => None,
            },
        ),
    )
}

/// Unsubscribe options on the wire.
pub open spec fn unsubscribe_options_json(o: UnsubscribeOptions) -> JsonV {
    JsonV::Obj(
        opt_member(
            "client_id"@,
            match o.client_id {
                Some(c) => Some(JsonV::Str(c@)),
                None => None,
            },
        ),
    )
}

/// The decimal text of a 32-bit signed integer.
pub open spec fn i32_dec(n: i32) -> Seq<char> {
    if n < 0 {
        seq!['-'] + dec_str((-(n as int)) as nat)
    } else {
        dec_str(n as nat)
    }
}

/// A disconnect push on the wire: unset parts are omitted.
pub open spec fn disconnect_json(d: Disconnect) -> JsonV {
    JsonV::Obj(
        opt_member(
            "code"@,
            match d.code {
                Some(n) => Some(JsonV::Num(dec_str(n as nat))),
                None => None,
            },
        ) + opt_member(
            "reason"@,
            match d.reason {
                Some(s) => Some(JsonV::Str(s@)),
                None => None,
            },
        ) + opt_member(
            "reconnect"@,
            match d.reconnect {
                Some(b) => Some(JsonV::Bool(b)),
                None => None,
            },
        ),
    )
}

/// The view of a list of channel names as a JSON array of strings.
pub open spec fn strings_json(cs: Seq<String>) -> JsonV {
    JsonV::Arr(Seq::new(cs.len(), |i: int| JsonV::Str(cs[i]@)))
}

/// Disconnect options on the wire: unset options are omitted.
pub open spec fn disconnect_options_json(o: DisconnectOptions) -> JsonV {
    JsonV::Obj(
        opt_member(
            "disconnect"@,
            match o.disconnect {
                Some(d) => Some(disconnect_json(d)),
                None => None,
            },
        ) + opt_member(
            "client_whitelist"@,
            match o.client_whitelist {
                Some(w) => Some(strings_json(w@)),
                None => None,
            },
        ) + opt_member(
            "client_id"@,
            match o.client_id {
                Some(c) => Some(JsonV::Str(c@)),
                None => None,
            },
        ),
    )
}

/// History options on the wire: unset options are omitted.
pub open spec fn history_options_json(o: HistoryOptions) -> JsonV {
    JsonV::Obj(
        opt_member(
            "since"@,
            match o.since {
                Some(p) => Some(stream_position_json(p)),
                None => None,
            },
        ) + opt_member(
            "limit"@,
            match o.limit {
                Some(l) => Some(JsonV::Num(i32_dec(l))),
                None => None,
            },
        ) + opt_member(
            "reverse"@,
            match o.reverse {
                Some(b) => Some(JsonV::Bool(b)),
                None => None,
            },
        ),
    )
}

/// A request payload as the JSON value it takes on the wire.
pub open spec fn params_json(k: RequestKind) -> JsonV {
    match k {
        RequestKind::ChannelsRequest(r) => JsonV::Obj(
            opt_member(
                "pattern"@,
                match r.pattern {
                    Some(p) => Some(JsonV::Str(p@)),
                    None => None,
                },
            ),
        ),
        RequestKind::PublishRequest(r) => JsonV::Obj(
            seq![
                ("channel"@, JsonV::Str(r.channel@)),
                ("data"@, r.data@),
                ("options"@, publish_options_json(r.options)),
            ],
        ),
        RequestKind::BroadcastRequest(r) => JsonV::Obj(
            seq![
                ("channels"@, strings_json(r.channels@)),
                ("data"@, r.data@),
                ("options"@, publish_options_json(r.options)),
            ],
        ),
        RequestKind::SubscribeRequest(r) => JsonV::Obj(
            seq![
                ("channel"@, JsonV::Str(r.channel@)),
                ("user"@, JsonV::Str(r.user@)),
                ("options"@, subscribe_options_json(r.options)),
            ],
        ),
        RequestKind::UnsubscribeRequest(r) => JsonV::Obj(
            seq![
                ("channel"@, JsonV::Str(r.channel@)),
                ("user"@, JsonV::Str(r.user@)),
                ("options"@, unsubscribe_options_json(r.options)),
            ],
        ),
        RequestKind::DisconnectRequest(r) => JsonV::Obj(
            seq![("user"@, JsonV::Str(r.user@)), ("options"@, disconnect_options_json(r.options))],
        ),
        RequestKind::HistoryRequest(r) => JsonV::Obj(
            seq![
                ("channel"@, JsonV::Str(r.channel@)),
                ("options"@, history_options_json(r.options)),
            ],
        ),
        RequestKind::Value(v) => v@,
    }
}

/// A whole command as the JSON value it takes on the wire: the method name
/// beside its parameters.
pub open spec fn command_json(c: Command) -> JsonV {
    JsonV::Obj(seq![("method"@, JsonV::Str(c.method@)), ("params"@, params_json(c.params))])
}

/// One command's wire line.
pub open spec fn ser_command(c: Command) -> Seq<char> {
    ser_json(command_json(c))
}

/// The request body: one compact JSON line per command, in order, joined by
/// newlines.
pub open spec fn ndjson(cs: Seq<Command>) -> Seq<char>
    decreases cs.len(),
{
    if cs.len() == 0 {
        Seq::empty()
    } else if cs.len() == 1 {
        ser_command(cs[0])
    } else {
        ndjson(cs.subrange(0, cs.len() - 1)) + seq!['\n'] + ser_command(cs[cs.len() - 1])
    }
}

/// The decimal digit characters of a natural number.
fn dec_chars_u64(n: u64) -> (r: Vec<char>)
    ensures
        r@ == dec_str(n as nat),
    decreases n,
{
    if n < 10 {
        let mut v: Vec<char> = Vec::new();
        v.push(crate::json::hex_digit_char(n as u32));
        proof {
            assert(v@ =~= dec_str(n as nat));
        }
        v
    } else {
        let mut v = dec_chars_u64(n / 10);
        v.push(crate::json::hex_digit_char((n % 10) as u32));
        proof {
            assert(v@ =~= dec_str(n as nat));
        }
        v
    }
}

/// A natural number as a JSON number value.
fn json_num_u64(n: u64) -> (r: Json)
    ensures
        r@ == JsonV::Num(dec_str(n as nat)),
{
    let v = dec_chars_u64(n);
    Json::Num(crate::text::chars_to_string(&v))
}

/// A 32-bit signed integer as a JSON number value.
fn json_num_i32(n: i32) -> (r: Json)
    ensures
        r@ == JsonV::Num(i32_dec(n)),
{
    if n < 0 {
        let m: u64 = (-(n as i64)) as u64;
        proof {
            assert(m as nat == (-(n as int)) as nat);
        }
        let mut v: Vec<char> = Vec::new();
        v.push('-');
        let mut d = dec_chars_u64(m);
        v.append(&mut d);
        proof {
            assert(v@ =~= i32_dec(n));
        }
        Json::Num(crate::text::chars_to_string(&v))
    } else {
        let v = dec_chars_u64(n as u64);
        proof {
            assert(v@ == i32_dec(n));
        }
        Json::Num(crate::text::chars_to_string(&v))
    }
}

/// A list of channel names as a JSON array of strings.
fn strings_to_json(cs: &Vec<String>) -> (r: Json)
    ensures
        r@ == strings_json(cs@),
{
    let n = cs.len();
    let mut out: Vec<Json> = Vec::new();
    let mut i: usize = 0;
    while i < n
        invariant
            n == cs@.len(),
            i <= n,
            out@.len() == i,
            forall|k: int| 0 <= k < i ==> (#[trigger] out@[k])@ == JsonV::Str(cs@[k]@),
        decreases n - i,
    {
        out.push(Json::Str(cs[i].clone()));
        i += 1;
    }
    proof {
        assert(jsons_view(out@) =~= strings_json(cs@)->Arr_0);
    }
    Json::Arr(out)
}

/// Publish options as their wire value.
fn publish_options_to_json(o: &PublishOptions) -> (r: Json)
    ensures
        r@ == publish_options_json(*o),
{
    let mut ms: Vec<(String, Json)> = Vec::new();
    ms.push((String::from_str("skip_history"), Json::Bool(o.skip_history)));
    proof {
        assert(members_view(ms@) =~= publish_options_json(*o)->Obj_0);
    }
    Json::Obj(ms)
}

/// A stream position as its wire value.
fn stream_position_to_json(p: &StreamPosition) -> (r: Json)
    ensures
        r@ == stream_position_json(*p),
{
    let ghost m0 = opt_member(
        "offset"@,
        if p.offset is Some {
            Some(JsonV::Num(dec_str(p.offset->Some_0 as nat)))
        } else {
            None
        },
    );
    let ghost m1 = opt_member(
        "epoch"@,
        if p.epoch is Some {
            Some(JsonV::Str(p.epoch->Some_0@))
        } else {
            None
        },
    );
    let mut ms: Vec<(String, Json)> = Vec::new();
    match &p.offset {
        Some(n) => {
            ms.push((String::from_str("offset"), json_num_u64(*n)));
        },
        None => {},
    }
    proof {
        assert(members_view(ms@) =~= m0);
    }
    match &p.epoch {
        Some(e) => {
            ms.push((String::from_str("epoch"), Json::Str(e.clone())));
        },
        None => {},
    }
    proof {
        assert(members_view(ms@) =~= m0 + m1);
    }
    Json::Obj(ms)
}


/// Appends a boolean member when the option is set.
fn push_opt_bool(ms: &mut Vec<(String, Json)>, key: &str, v: &Option<bool>)
    ensures
        members_view(final(ms)@) == members_view(old(ms)@) + opt_member(
            key@,
            if v is Some {
                Some(JsonV::Bool(v->0))
            } else {
                None
            },
        ),
{
    match v {
        Some(b) => {
            ms.push((String::from_str(key), Json::Bool(*b)));
        },
        None => {},
    }
    proof {
        assert(members_view(ms@) =~= members_view(old(ms)@) + opt_member(
            key@,
            if v is Some {
                Some(JsonV::Bool(v->0))
            } else {
                None
            },
        ));
    }
}

/// Appends a string member when the option is set.
fn push_opt_string(ms: &mut Vec<(String, Json)>, key: &str, v: &Option<String>)
    ensures
        members_view(final(ms)@) == members_view(old(ms)@) + opt_member(
            key@,
            if v is Some {
                Some(JsonV::Str(v->0@))
            } else {
                None
            },
        ),
{
    match v {
        Some(c) => {
            ms.push((String::from_str(key), Json::Str(c.clone())));
        },
        None => {},
    }
    proof {
        assert(members_view(ms@) =~= members_view(old(ms)@) + opt_member(
            key@,
            if v is Some {
                Some(JsonV::Str(v->0@))
            } else {
                None
            },
        ));
    }
}

/// Appends a raw JSON member when the option is set.
fn push_opt_json(ms: &mut Vec<(String, Json)>, key: &str, v: &Option<Json>)
    ensures
        members_view(final(ms)@) == members_view(old(ms)@) + opt_member(
            key@,
            if v is Some {
                Some(v->0@)
            } else {
                None
            },
        ),
{
    match v {
        Some(j) => {
            ms.push((String::from_str(key), json_clone(j)));
        },
        None => {},
    }
    proof {
        assert(members_view(ms@) =~= members_view(old(ms)@) + opt_member(
            key@,
            if v is Some {
                Some(v->0@)
            } else {
                None
            },
        ));
    }
}

/// Appends a stream position member when the option is set.
fn push_opt_stream_position(ms: &mut Vec<(String, Json)>, key: &str, v: &Option<StreamPosition>)
    ensures
        members_view(final(ms)@) == members_view(old(ms)@) + opt_member(
            key@,
            if v is Some {
                Some(stream_position_json(v->0))
            } else {
                None
            },
        ),
{
    match v {
        Some(p) => {
            ms.push((String::from_str(key), stream_position_to_json(p)));
        },
        None => {},
    }
    proof {
        assert(members_view(ms@) =~= members_view(old(ms)@) + opt_member(
            key@,
            if v is Some {
                Some(stream_position_json(v->0))
            } else {
                None
            },
        ));
    }
}

/// Subscribe options as their wire value.
fn subscribe_options_to_json(o: &SubscribeOptions) -> (r: Json)
    ensures
        r@ == subscribe_options_json(*o),
{
    let mut ms: Vec<(String, Json)> = Vec::new();
    push_opt_json(&mut ms, "info", &o.info);
    push_opt_bool(&mut ms, "presence", &o.presence);
    push_opt_bool(&mut ms, "join_leave", &o.join_leave);
    push_opt_bool(&mut ms, "position", &o.position);
    push_opt_bool(&mut ms, "recover", &o.recover);
    push_opt_json(&mut ms, "data", &o.data);
    push_opt_stream_position(&mut ms, "recover_since", &o.recover_since);
    push_opt_string(&mut ms, "client_id", &o.client_id);
    proof {
        assert(members_view(ms@) =~= subscribe_options_json(*o)->Obj_0);
    }
    Json::Obj(ms)
}

/// Unsubscribe options as their wire value.
fn unsubscribe_options_to_json(o: &UnsubscribeOptions) -> (r: Json)
    ensures
        r@ == unsubscribe_options_json(*o),
{
    let mut ms: Vec<(String, Json)> = Vec::new();
    match &o.client_id {
        Some(c) => {
            ms.push((String::from_str("client_id"), Json::Str(c.clone())));
        },
        None => {},
    }
    proof {
        assert(members_view(ms@) =~= unsubscribe_options_json(*o)->Obj_0);
    }
    Json::Obj(ms)
}

/// A disconnect push as its wire value.
fn disconnect_to_json(d: &Disconnect) -> (r: Json)
    ensures
        r@ == disconnect_json(*d),
{
    let ghost m0 = opt_member(
        "code"@,
        if d.code is Some {
            Some(JsonV::Num(dec_str(d.code->Some_0 as nat)))
        } else {
            None
        },
    );
    let ghost m1 = opt_member(
        "reason"@,
        if d.reason is Some {
            Some(JsonV::Str(d.reason->Some_0@))
        } else {
            None
        },
    );
    let ghost m2 = opt_member(
        "reconnect"@,
        if d.reconnect is Some {
            Some(JsonV::Bool(d.reconnect->Some_0))
        } else {
            None
        },
    );
    let mut ms: Vec<(String, Json)> = Vec::new();
    match &d.code {
        Some(n) => {
            proof {
                assert((*n as u64) as nat == *n as nat);
            }
            ms.push((String::from_str("code"), json_num_u64(*n as u64)));
        },
        None => {},
    }
    proof {
        assert(members_view(ms@) =~= m0);
    }
    match &d.reason {
        Some(s) => {
            ms.push((String::from_str("reason"), Json::Str(s.clone())));
        },
        None => {},
    }
    proof {
        assert(members_view(ms@) =~= m0 + m1);
    }
    match &d.reconnect {
        Some(b) => {
            ms.push((String::from_str("reconnect"), Json::Bool(*b)));
        },
        None => {},
    }
    proof {
        assert(members_view(ms@) =~= m0 + m1 + m2);
    }
    Json::Obj(ms)
}

/// Disconnect options as their wire value.
fn disconnect_options_to_json(o: &DisconnectOptions) -> (r: Json)
    ensures
        r@ == disconnect_options_json(*o),
{
    let ghost m0 = opt_member(
        "disconnect"@,
        if o.disconnect is Some {
            Some(disconnect_json(o.disconnect->Some_0))
        } else {
            None
        },
    );
    let ghost m1 = opt_member(
        "client_whitelist"@,
        if o.client_whitelist is Some {
            Some(strings_json(o.client_whitelist->Some_0@))
        } else {
            None
        },
    );
    let ghost m2 = opt_member(
        "client_id"@,
        if o.client_id is Some {
            Some(JsonV::Str(o.client_id->Some_0@))
        } else {
            None
        },
    );
    let mut ms: Vec<(String, Json)> = Vec::new();
    match &o.disconnect {
        Some(d) => {
            ms.push((String::from_str("disconnect"), disconnect_to_json(d)));
        },
        None => {},
    }
    proof {
        assert(members_view(ms@) =~= m0);
    }
    match &o.client_whitelist {
        Some(w) => {
            ms.push((String::from_str("client_whitelist"), strings_to_json(w)));
        },
        None => {},
    }
    proof {
        assert(members_view(ms@) =~= m0 + m1);
    }
    match &o.client_id {
        Some(c) => {
            ms.push((String::from_str("client_id"), Json::Str(c.clone())));
        },
        None => {},
    }
    proof {
        assert(members_view(ms@) =~= m0 + m1 + m2);
    }
    Json::Obj(ms)
}

/// History options as their wire value.
fn history_options_to_json(o: &HistoryOptions) -> (r: Json)
    ensures
        r@ == history_options_json(*o),
{
    let ghost m0 = opt_member(
        "since"@,
        if o.since is Some {
            Some(stream_position_json(o.since->Some_0))
        } else {
            None
        },
    );
    let ghost m1 = opt_member(
        "limit"@,
        if o.limit is Some {
            Some(JsonV::Num(i32_dec(o.limit->Some_0)))
        } else {
            None
        },
    );
    let ghost m2 = opt_member(
        "reverse"@,
        if o.reverse is Some {
            Some(JsonV::Bool(o.reverse->Some_0))
        } else {
            None
        },
    );
    let mut ms: Vec<(String, Json)> = Vec::new();
    match &o.since {
        Some(p) => {
            ms.push((String::from_str("since"), stream_position_to_json(p)));
        },
        None => {},
    }
    proof {
        assert(members_view(ms@) =~= m0);
    }
    match &o.limit {
        Some(l) => {
            ms.push((String::from_str("limit"), json_num_i32(*l)));
        },
        None => {},
    }
    proof {
        assert(members_view(ms@) =~= m0 + m1);
    }
    match &o.reverse {
        Some(b) => {
            ms.push((String::from_str("reverse"), Json::Bool(*b)));
        },
        None => {},
    }
    proof {
        assert(members_view(ms@) =~= m0 + m1 + m2);
    }
    Json::Obj(ms)
}

/// A request payload as the JSON value it takes on the wire.
fn params_to_json(k: &RequestKind) -> (r: Json)
    ensures
        r@ == params_json(*k),
{
    match k {
        RequestKind::ChannelsRequest(q) => {
            let mut ms: Vec<(String, Json)> = Vec::new();
            match &q.pattern {
                Some(p) => {
                    ms.push((String::from_str("pattern"), Json::Str(p.clone())));
                },
                None => {},
            }
            proof {
                assert(members_view(ms@) =~= params_json(*k)->Obj_0);
            }
            Json::Obj(ms)
        },
        RequestKind::PublishRequest(q) => {
            let mut ms: Vec<(String, Json)> = Vec::new();
            ms.push((String::from_str("channel"), Json::Str(q.channel.clone())));
            ms.push((String::from_str("data"), json_clone(&q.data)));
            ms.push((String::from_str("options"), publish_options_to_json(&q.options)));
            proof {
                assert(members_view(ms@) =~= params_json(*k)->Obj_0);
            }
            Json::Obj(ms)
        },
        RequestKind::BroadcastRequest(q) => {
            let mut ms: Vec<(String, Json)> = Vec::new();
            ms.push((String::from_str("channels"), strings_to_json(&q.channels)));
            ms.push((String::from_str("data"), json_clone(&q.data)));
            ms.push((String::from_str("options"), publish_options_to_json(&q.options)));
            proof {
                assert(members_view(ms@) =~= params_json(*k)->Obj_0);
            }
            Json::Obj(ms)
        },
        RequestKind::SubscribeRequest(q) => {
            let mut ms: Vec<(String, Json)> = Vec::new();
            ms.push((String::from_str("channel"), Json::Str(q.channel.clone())));
            ms.push((String::from_str("user"), Json::Str(q.user.clone())));
            ms.push((String::from_str("options"), subscribe_options_to_json(&q.options)));
            proof {
                assert(members_view(ms@) =~= params_json(*k)->Obj_0);
            }
            Json::Obj(ms)
        },
        RequestKind::UnsubscribeRequest(q) => {
            let mut ms: Vec<(String, Json)> = Vec::new();
            ms.push((String::from_str("channel"), Json::Str(q.channel.clone())));
            ms.push((String::from_str("user"), Json::Str(q.user.clone())));
            ms.push((String::from_str("options"), unsubscribe_options_to_json(&q.options)));
            proof {
                assert(members_view(ms@) =~= params_json(*k)->Obj_0);
            }
            Json::Obj(ms)
        },
        RequestKind::DisconnectRequest(q) => {
            let mut ms: Vec<(String, Json)> = Vec::new();
            ms.push((String::from_str("user"), Json::Str(q.user.clone())));
            ms.push((String::from_str("options"), disconnect_options_to_json(&q.options)));
            proof {
                assert(members_view(ms@) =~= params_json(*k)->Obj_0);
            }
            Json::Obj(ms)
        },
        RequestKind::HistoryRequest(q) => {
            let mut ms: Vec<(String, Json)> = Vec::new();
            ms.push((String::from_str("channel"), Json::Str(q.channel.clone())));
            ms.push((String::from_str("options"), history_options_to_json(&q.options)));
            proof {
                assert(members_view(ms@) =~= params_json(*k)->Obj_0);
            }
            Json::Obj(ms)
        },
        RequestKind::Value(v) => json_clone(v),
    }
}

/// One command's wire line, as characters.
pub fn command_to_chars(c: &Command) -> (r: Vec<char>)
    ensures
        r@ == ser_command(*c),
{
    let mut ms: Vec<(String, Json)> = Vec::new();
    ms.push((String::from_str("method"), Json::Str(c.method.clone())));
    ms.push((String::from_str("params"), params_to_json(&c.params)));
    proof {
        assert(members_view(ms@) =~= command_json(*c)->Obj_0);
    }
    let j = Json::Obj(ms);
    let mut out: Vec<char> = Vec::new();
    crate::json::write_json(&j, &mut out);
    out
}

/// The request body of a whole command list: lines joined by newlines.
pub fn encode_commands(cs: &Vec<Command>) -> (r: String)
    ensures
        r@ == ndjson(cs@),
{
    let n = cs.len();
    let mut out: Vec<char> = Vec::new();
    let mut i: usize = 0;
    proof {
        assert(ndjson(cs@.subrange(0, 0)) =~= Seq::<char>::empty());
        assert(out@ =~= ndjson(cs@.subrange(0, 0)));
    }
    while i < n
        invariant
            n == cs@.len(),
            i <= n,
            out@ == ndjson(cs@.subrange(0, i as int)),
        decreases n - i,
    {
        if i > 0 {
            out.push('\n');
        }
        let mut line = command_to_chars(&cs[i]);
        out.append(&mut line);
        proof {
            let pre = cs@.subrange(0, i as int);
            let cur = cs@.subrange(0, (i + 1) as int);
            assert(cur.subrange(0, cur.len() - 1) =~= pre);
            assert(cur[cur.len() - 1] == cs@[i as int]);
            assert(out@ =~= ndjson(cur));
        }
        i += 1;
    }
    proof {
        assert(cs@.subrange(0, n as int) =~= cs@);
    }
    crate::text::chars_to_string(&out)
}

/// The decimal text of a natural number holds only digit characters.
proof fn lemma_dec_str_no_nl(n: nat)
    ensures
        no_nl(dec_str(n)),
    decreases n,
{
    if n >= 10 {
        lemma_dec_str_no_nl(n / 10);
        let pre = dec_str(n / 10);
        let whole = dec_str(n);
        assert(whole == pre + seq![hex_digit((n % 10) as int)]);
        assert forall|k: int| 0 <= k < whole.len() implies whole[k] != '\n' by {
            if k < pre.len() {
                assert(whole[k] == pre[k]);
            }
        }
    }
}

proof fn lemma_i32_dec_no_nl(n: i32)
    ensures
        no_nl(i32_dec(n)),
{
    if n < 0 {
        lemma_dec_str_no_nl((-(n as int)) as nat);
        let d = dec_str((-(n as int)) as nat);
        let whole = i32_dec(n);
        assert(whole == seq!['-'] + d);
        assert forall|k: int| 0 <= k < whole.len() implies whole[k] != '\n' by {
            if k >= 1 {
                assert(whole[k] == d[k - 1]);
            }
        }
    } else {
        lemma_dec_str_no_nl(n as nat);
    }
}

/// A conditional member is one-line when its value is.
proof fn lemma_opt_member_one_line(key: Seq<char>, v: Option<JsonV>)
    requires
        v is Some ==> one_line(v->0),
    ensures
        one_line_members(opt_member(key, v)),
{
    match v {
        Some(j) => {
            lemma_one_line_members_cons((key, j), Seq::empty());
            assert(seq![(key, j)] + Seq::<(Seq<char>, JsonV)>::empty() =~= opt_member(key, v));
        },
        None => {},
    }
}

proof fn lemma_publish_options_one_line(o: PublishOptions)
    ensures
        one_line(publish_options_json(o)),
{
    lemma_one_line_members_cons(("skip_history"@, JsonV::Bool(o.skip_history)), Seq::empty());
    assert(seq![("skip_history"@, JsonV::Bool(o.skip_history))] + Seq::<(
        Seq<char>,
        JsonV,
    )>::empty() =~= publish_options_json(o)->Obj_0);
}

proof fn lemma_stream_position_one_line(p: StreamPosition)
    ensures
        one_line(stream_position_json(p)),
{
    let m0 = opt_member(
        "offset"@,
        if p.offset is Some {
            Some(JsonV::Num(dec_str(p.offset->0 as nat)))
        } else {
            None
        },
    );
    let m1 = opt_member(
        "epoch"@,
        if p.epoch is Some {
            Some(JsonV::Str(p.epoch->0@))
        } else {
            None
        },
    );
    if p.offset is Some {
        lemma_dec_str_no_nl(p.offset->0 as nat);
    }
    lemma_opt_member_one_line(
        "offset"@,
        if p.offset is Some {
            Some(JsonV::Num(dec_str(p.offset->0 as nat)))
        } else {
            None
        },
    );
    lemma_opt_member_one_line(
        "epoch"@,
        if p.epoch is Some {
            Some(JsonV::Str(p.epoch->0@))
        } else {
            None
        },
    );
    lemma_one_line_members_app(m0, m1);
}

proof fn lemma_unsubscribe_options_one_line(o: UnsubscribeOptions)
    ensures
        one_line(unsubscribe_options_json(o)),
{
    lemma_opt_member_one_line(
        "client_id"@,
        if o.client_id is Some {
            Some(JsonV::Str(o.client_id->0@))
        } else {
            None
        },
    );
}

proof fn lemma_disconnect_one_line(d: Disconnect)
    ensures
        one_line(disconnect_json(d)),
{
    let m0 = opt_member(
        "code"@,
        if d.code is Some {
            Some(JsonV::Num(dec_str(d.code->0 as nat)))
        } else {
            None
        },
    );
    let m1 = opt_member(
        "reason"@,
        if d.reason is Some {
            Some(JsonV::Str(d.reason->0@))
        } else {
            None
        },
    );
    let m2 = opt_member(
        "reconnect"@,
        if d.reconnect is Some {
            Some(JsonV::Bool(d.reconnect->0))
        } else {
            None
        },
    );
    if d.code is Some {
        lemma_dec_str_no_nl(d.code->0 as nat);
    }
    lemma_opt_member_one_line(
        "code"@,
        if d.code is Some {
            Some(JsonV::Num(dec_str(d.code->0 as nat)))
        } else {
            None
        },
    );
    lemma_opt_member_one_line(
        "reason"@,
        if d.reason is Some {
            Some(JsonV::Str(d.reason->0@))
        } else {
            None
        },
    );
    lemma_opt_member_one_line(
        "reconnect"@,
        if d.reconnect is Some {
            Some(JsonV::Bool(d.reconnect->0))
        } else {
            None
        },
    );
    lemma_one_line_members_app(m0, m1);
    lemma_one_line_members_app(m0 + m1, m2);
}

proof fn lemma_strings_one_line(cs: Seq<String>)
    ensures
        one_line(strings_json(cs)),
{
    let es = strings_json(cs)->Arr_0;
    assert(forall|k: int| 0 <= k < es.len() ==> one_line(#[trigger] es[k]));
    lemma_one_line_elems_all(es);
}

proof fn lemma_disconnect_options_one_line(o: DisconnectOptions)
    ensures
        one_line(disconnect_options_json(o)),
{
    let m0 = opt_member(
        "disconnect"@,
        if o.disconnect is Some {
            Some(disconnect_json(o.disconnect->0))
        } else {
            None
        },
    );
    let m1 = opt_member(
        "client_whitelist"@,
        if o.client_whitelist is Some {
            Some(strings_json(o.client_whitelist->0@))
        } else {
            None
        },
    );
    let m2 = opt_member(
        "client_id"@,
        if o.client_id is Some {
            Some(JsonV::Str(o.client_id->0@))
        } else {
            None
        },
    );
    if o.disconnect is Some {
        lemma_disconnect_one_line(o.disconnect->0);
    }
    if o.client_whitelist is Some {
        lemma_strings_one_line(o.client_whitelist->0@);
    }
    lemma_opt_member_one_line(
        "disconnect"@,
        if o.disconnect is Some {
            Some(disconnect_json(o.disconnect->0))
        } else {
            None
        },
    );
    lemma_opt_member_one_line(
        "client_whitelist"@,
        if o.client_whitelist is Some {
            Some(strings_json(o.client_whitelist->0@))
        } else {
            None
        },
    );
    lemma_opt_member_one_line(
        "client_id"@,
        if o.client_id is Some {
            Some(JsonV::Str(o.client_id->0@))
        } else {
            None
        },
    );
    lemma_one_line_members_app(m0, m1);
    lemma_one_line_members_app(m0 + m1, m2);
}

proof fn lemma_history_options_one_line(o: HistoryOptions)
    ensures
        one_line(history_options_json(o)),
{
    let m0 = opt_member(
        "since"@,
        if o.since is Some {
            Some(stream_position_json(o.since->0))
        } else {
            None
        },
    );
    let m1 = opt_member(
        "limit"@,
        if o.limit is Some {
            Some(JsonV::Num(i32_dec(o.limit->0)))
        } else {
            None
        },
    );
    let m2 = opt_member(
        "reverse"@,
        if o.reverse is Some {
            Some(JsonV::Bool(o.reverse->0))
        } else {
            None
        },
    );
    if o.since is Some {
        lemma_stream_position_one_line(o.since->0);
    }
    if o.limit is Some {
        lemma_i32_dec_no_nl(o.limit->0);
    }
    lemma_opt_member_one_line(
        "since"@,
        if o.since is Some {
            Some(stream_position_json(o.since->0))
        } else {
            None
        },
    );
    lemma_opt_member_one_line(
        "limit"@,
        if o.limit is Some {
            Some(JsonV::Num(i32_dec(o.limit->0)))
        } else {
            None
        },
    );
    lemma_opt_member_one_line(
        "reverse"@,
        if o.reverse is Some {
            Some(JsonV::Bool(o.reverse->0))
        } else {
            None
        },
    );
    lemma_one_line_members_app(m0, m1);
    lemma_one_line_members_app(m0 + m1, m2);
}

/// Whether a subscribe options value carries only one-line payloads.
pub open spec fn subscribe_options_one_line(o: SubscribeOptions) -> bool {
    &&& (o.info is Some ==> one_line(o.info->0@))
    &&& (o.data is Some ==> one_line(o.data->0@))
}

proof fn lemma_subscribe_options_one_line(o: SubscribeOptions)
    requires
        subscribe_options_one_line(o),
    ensures
        one_line(subscribe_options_json(o)),
{
    let m0 = opt_member(
        "info"@,
        if o.info is Some {
            Some(o.info->0@)
        } else {
            None
        },
    );
    let m1 = opt_member(
        "presence"@,
        if o.presence is Some {
            Some(JsonV::Bool(o.presence->0))
        } else {
            None
        },
    );
    let m2 = opt_member(
        "join_leave"@,
        if o.join_leave is Some {
            Some(JsonV::Bool(o.join_leave->0))
        } else {
            None
        },
    );
    let m3 = opt_member(
        "position"@,
        if o.position is Some {
            Some(JsonV::Bool(o.position->0))
        } else {
            None
        },
    );
    let m4 = opt_member(
        "recover"@,
        if o.recover is Some {
            Some(JsonV::Bool(o.recover->0))
        } else {
            None
        },
    );
    let m5 = opt_member(
        "data"@,
        if o.data is Some {
            Some(o.data->0@)
        } else {
            None
        },
    );
    let m6 = opt_member(
        "recover_since"@,
        if o.recover_since is Some {
            Some(stream_position_json(o.recover_since->0))
        } else {
            None
        },
    );
    let m7 = opt_member(
        "client_id"@,
        if o.client_id is Some {
            Some(JsonV::Str(o.client_id->0@))
        } else {
            None
        },
    );
    if o.recover_since is Some {
        lemma_stream_position_one_line(o.recover_since->0);
    }
    lemma_opt_member_one_line(
        "info"@,
        if o.info is Some {
            Some(o.info->0@)
        } else {
            None
        },
    );
    lemma_opt_member_one_line(
        "presence"@,
        if o.presence is Some {
            Some(JsonV::Bool(o.presence->0))
        } else {
            None
        },
    );
    lemma_opt_member_one_line(
        "join_leave"@,
        if o.join_leave is Some {
            Some(JsonV::Bool(o.join_leave->0))
        } else {
            None
        },
    );
    lemma_opt_member_one_line(
        "position"@,
        if o.position is Some {
            Some(JsonV::Bool(o.position->0))
        } else {
            None
        },
    );
    lemma_opt_member_one_line(
        "recover"@,
        if o.recover is Some {
            Some(JsonV::Bool(o.recover->0))
        } else {
            None
        },
    );
    lemma_opt_member_one_line(
        "data"@,
        if o.data is Some {
            Some(o.data->0@)
        } else {
            None
        },
    );
    lemma_opt_member_one_line(
        "recover_since"@,
        if o.recover_since is Some {
            Some(stream_position_json(o.recover_since->0))
        } else {
            None
        },
    );
    lemma_opt_member_one_line(
        "client_id"@,
        if o.client_id is Some {
            Some(JsonV::Str(o.client_id->0@))
        } else {
            None
        },
    );
    lemma_one_line_members_app(m0, m1);
    lemma_one_line_members_app(m0 + m1, m2);
    lemma_one_line_members_app(m0 + m1 + m2, m3);
    lemma_one_line_members_app(m0 + m1 + m2 + m3, m4);
    lemma_one_line_members_app(m0 + m1 + m2 + m3 + m4, m5);
    lemma_one_line_members_app(m0 + m1 + m2 + m3 + m4 + m5, m6);
    lemma_one_line_members_app(m0 + m1 + m2 + m3 + m4 + m5 + m6, m7);
}

proof fn lemma_one_line_members1(a: (Seq<char>, JsonV))
    requires
        one_line(a.1),
    ensures
        one_line_members(seq![a]),
{
    lemma_one_line_members_cons(a, Seq::empty());
    assert(seq![a] + Seq::<(Seq<char>, JsonV)>::empty() =~= seq![a]);
}

proof fn lemma_one_line_members2(a: (Seq<char>, JsonV), b: (Seq<char>, JsonV))
    requires
        one_line(a.1),
        one_line(b.1),
    ensures
        one_line_members(seq![a, b]),
{
    lemma_one_line_members1(b);
    lemma_one_line_members_cons(a, seq![b]);
    assert(seq![a] + seq![b] =~= seq![a, b]);
}

proof fn lemma_one_line_members3(a: (Seq<char>, JsonV), b: (Seq<char>, JsonV), c: (
    Seq<char>,
    JsonV,
))
    requires
        one_line(a.1),
        one_line(b.1),
        one_line(c.1),
    ensures
        one_line_members(seq![a, b, c]),
{
    lemma_one_line_members2(b, c);
    lemma_one_line_members_cons(a, seq![b, c]);
    assert(seq![a] + seq![b, c] =~= seq![a, b, c]);
}

/// An ordered, append-only (until reset) batch of commands, sent to the
/// server in one request. The n-th command appended is the n-th transmitted.
#[derive(Debug)]
pub struct Pipe {
    pub commands: Vec<Command>,
}

impl Pipe {
    /// A fresh batch, holding no commands.
    pub fn new() -> (r: Pipe)
        ensures
            r.commands@.len() == 0,
    {
        Pipe { commands: Vec::new() }
    }

    /// Clears the command buffer.
    pub fn reset(&mut self)
        ensures
            final(self).commands@.len() == 0,
    {
        self.commands = Vec::new();
    }

    /// Appends one command to the batch.
    pub fn add(&mut self, cmd: Command) -> (r: Result<(), ClientError>)
        ensures
            r is Ok,
            final(self).commands@ == old(self).commands@.push(cmd),
    {
        self.commands.push(cmd);
        Ok(())
    }

    /// Adds a publish command: the payload text must be valid JSON, else the
    /// batch is left unchanged and the call fails.
    pub fn add_publish(&mut self, channel: String, data: &str, opts: Vec<PublishOption>) -> (r:
        Result<(), ClientError>)
        requires
            data@.len() <= 0x1000_0000_0000_0000,
        ensures
            r is Ok <==> crate::parse::sp_json(data@) is Some,
            r is Err ==> r->Err_0 is MalformedPayload && *final(self) == *old(self),
            r is Ok ==> final(self).commands@ == old(self).commands@.push(
                final(self).commands@.last(),
            ),
            r is Ok ==> final(self).commands@.last().method@ == "publish"@,
            r is Ok ==> (final(self).commands@.last().params matches RequestKind::PublishRequest(
                pr,
            ) && pr.channel == channel && pr.data@ == crate::parse::sp_json(data@)->Some_0
                && pr.options == apply_publish_options(
                PublishOptions { skip_history: false },
                opts@,
            )),
            r is Ok ==> one_line(params_json(final(self).commands@.last().params)),
    {
        let parsed = match crate::parse::parse_json_text(data) {
            Some(j) => j,
            None => {
                return Err(ClientError::MalformedPayload);
            },
        };
        let options = PublishOptions::build(opts);
        let cmd = Command {
            method: String::from_str("publish"),
            params: RequestKind::PublishRequest(
                PublishRequest { channel, data: parsed, options },
            ),
        };
        proof {
            let pr = cmd.params->PublishRequest_0;
            lemma_parsed_json_one_line(data@);
            lemma_publish_options_one_line(pr.options);
            lemma_one_line_members3(
                ("channel"@, JsonV::Str(pr.channel@)),
                ("data"@, pr.data@),
                ("options"@, publish_options_json(pr.options)),
            );
        }
        self.commands.push(cmd);
        Ok(())
    }

    /// Adds a broadcast command: the payload text must be valid JSON, else
    /// the batch is left unchanged and the call fails.
    pub fn add_broadcast(
        &mut self,
        channels: Vec<String>,
        data: &str,
        opts: Vec<PublishOption>,
    ) -> (r: Result<(), ClientError>)
        requires
            data@.len() <= 0x1000_0000_0000_0000,
        ensures
            r is Ok <==> crate::parse::sp_json(data@) is Some,
            r is Err ==> r->Err_0 is MalformedPayload && *final(self) == *old(self),
            r is Ok ==> final(self).commands@ == old(self).commands@.push(
                final(self).commands@.last(),
            ),
            r is Ok ==> final(self).commands@.last().method@ == "broadcast"@,
            r is Ok ==> (final(self).commands@.last().params matches RequestKind::BroadcastRequest(
                br,
            ) && br.channels == channels && br.data@ == crate::parse::sp_json(data@)->Some_0
                && br.options == apply_publish_options(
                PublishOptions { skip_history: false },
                opts@,
            )),
            r is Ok ==> one_line(params_json(final(self).commands@.last().params)),
    {
        let parsed = match crate::parse::parse_json_text(data) {
            Some(j) => j,
            None => {
                return Err(ClientError::MalformedPayload);
            },
        };
        let options = PublishOptions::build(opts);
        let cmd = Command {
            method: String::from_str("broadcast"),
            params: RequestKind::BroadcastRequest(
                BroadcastRequest { channels, data: parsed, options },
            ),
        };
        proof {
            let br = cmd.params->BroadcastRequest_0;
            lemma_parsed_json_one_line(data@);
            lemma_publish_options_one_line(br.options);
            lemma_strings_one_line(br.channels@);
            lemma_one_line_members3(
                ("channels"@, strings_json(br.channels@)),
                ("data"@, br.data@),
                ("options"@, publish_options_json(br.options)),
            );
        }
        self.commands.push(cmd);
        Ok(())
    }

    /// Adds a subscribe command. The custom info and data payloads among
    /// the options must be one-line values (see [`one_line`]); otherwise
    /// the batch is left unchanged and the call fails.
    pub fn add_subscribe(
        &mut self,
        channel: String,
        user: String,
        opts: Vec<SubscribeOption>,
    ) -> (r: Result<(), ClientError>)
        ensures
            r is Ok <==> subscribe_options_one_line(
                apply_subscribe_options(
                    SubscribeOptions {
                        info: None,
                        presence: None,
                        join_leave: None,
                        position: None,
                        recover: None,
                        data: None,
                        recover_since: None,
                        client_id: None,
                    },
                    opts@,
                ),
            ),
            r is Err ==> r->Err_0 is MalformedPayload && *final(self) == *old(self),
            r is Ok ==> final(self).commands@ == old(self).commands@.push(
                final(self).commands@.last(),
            ),
            r is Ok ==> final(self).commands@.last().method@ == "subscribe"@,
            r is Ok ==> (final(self).commands@.last().params
                matches RequestKind::SubscribeRequest(sr) && sr.channel == channel && sr.user
                == user && sr.options == apply_subscribe_options(
                SubscribeOptions {
                    info: None,
                    presence: None,
                    join_leave: None,
                    position: None,
                    recover: None,
                    data: None,
                    recover_since: None,
                    client_id: None,
                },
                opts@,
            )),
            r is Ok ==> one_line(params_json(final(self).commands@.last().params)),
    {
        let options = SubscribeOptions::build(opts);
        let info_ok = match &options.info {
            Some(v) => crate::json::is_one_line(v),
            None => true,
        };
        let data_ok = match &options.data {
            Some(v) => crate::json::is_one_line(v),
            None => true,
        };
        if !(info_ok && data_ok) {
            return Err(ClientError::MalformedPayload);
        }
        let cmd = Command {
            method: String::from_str("subscribe"),
            params: RequestKind::SubscribeRequest(SubscribeRequest { channel, user, options }),
        };
        proof {
            let sr = cmd.params->SubscribeRequest_0;
            lemma_subscribe_options_one_line(sr.options);
            lemma_one_line_members3(
                ("channel"@, JsonV::Str(sr.channel@)),
                ("user"@, JsonV::Str(sr.user@)),
                ("options"@, subscribe_options_json(sr.options)),
            );
        }
        self.commands.push(cmd);
        Ok(())
    }

    /// Adds an unsubscribe command.
    pub fn add_unsubscribe(
        &mut self,
        channel: String,
        user: String,
        opts: Vec<UnsubscribeOption>,
    ) -> (r: Result<(), ClientError>)
        ensures
            r is Ok,
            final(self).commands@ == old(self).commands@.push(final(self).commands@.last()),
            final(self).commands@.last().method@ == "unsubscribe"@,
            final(self).commands@.last().params matches RequestKind::UnsubscribeRequest(ur)
                && ur.channel == channel && ur.user == user && ur.options
                == apply_unsubscribe_options(UnsubscribeOptions { client_id: None }, opts@),
            one_line(params_json(final(self).commands@.last().params)),
    {
        let options = UnsubscribeOptions::build(opts);
        let cmd = Command {
            method: String::from_str("unsubscribe"),
            params: RequestKind::UnsubscribeRequest(UnsubscribeRequest { channel, user, options }),
        };
        proof {
            let ur = cmd.params->UnsubscribeRequest_0;
            lemma_unsubscribe_options_one_line(ur.options);
            lemma_one_line_members3(
                ("channel"@, JsonV::Str(ur.channel@)),
                ("user"@, JsonV::Str(ur.user@)),
                ("options"@, unsubscribe_options_json(ur.options)),
            );
        }
        self.commands.push(cmd);
        Ok(())
    }

    /// Adds a disconnect command.
    pub fn add_disconnect(&mut self, user: String, opts: Vec<DisconnectOption>) -> (r: Result<
        (),
        ClientError,
    >)
        ensures
            r is Ok,
            final(self).commands@ == old(self).commands@.push(final(self).commands@.last()),
            final(self).commands@.last().method@ == "disconnect"@,
            final(self).commands@.last().params matches RequestKind::DisconnectRequest(dr)
                && dr.user == user && dr.options == apply_disconnect_options(
                DisconnectOptions { disconnect: None, client_whitelist: None, client_id: None },
                opts@,
            ),
            one_line(params_json(final(self).commands@.last().params)),
    {
        let options = DisconnectOptions::build(opts);
        let cmd = Command {
            method: String::from_str("disconnect"),
            params: RequestKind::DisconnectRequest(DisconnectRequest { user, options }),
        };
        proof {
            let dr = cmd.params->DisconnectRequest_0;
            lemma_disconnect_options_one_line(dr.options);
            lemma_one_line_members2(
                ("user"@, JsonV::Str(dr.user@)),
                ("options"@, disconnect_options_json(dr.options)),
            );
        }
        self.commands.push(cmd);
        Ok(())
    }

    /// Adds a presence command.
    pub fn add_presence(&mut self, channel: String) -> (r: Result<(), ClientError>)
        ensures
            r is Ok,
            final(self).commands@ == old(self).commands@.push(final(self).commands@.last()),
            final(self).commands@.last().method@ == "presence"@,
            final(self).commands@.last().params matches RequestKind::Value(v) && v@ == JsonV::Obj(
                seq![("channel"@, JsonV::Str(channel@))],
            ),
            one_line(params_json(final(self).commands@.last().params)),
    {
        let mut ms: Vec<(String, Json)> = Vec::new();
        ms.push((String::from_str("channel"), Json::Str(channel)));
        proof {
            assert(members_view(ms@) =~= seq![("channel"@, JsonV::Str(channel@))]);
            lemma_one_line_members1(("channel"@, JsonV::Str(channel@)));
        }
        let cmd = Command {
            method: String::from_str("presence"),
            params: RequestKind::Value(Json::Obj(ms)),
        };
        self.commands.push(cmd);
        Ok(())
    }

    /// Adds a presence stats command.
    pub fn add_presence_stats(&mut self, channel: String) -> (r: Result<(), ClientError>)
        ensures
            r is Ok,
            final(self).commands@ == old(self).commands@.push(final(self).commands@.last()),
            final(self).commands@.last().method@ == "presence_stats"@,
            final(self).commands@.last().params matches RequestKind::Value(v) && v@ == JsonV::Obj(
                seq![("channel"@, JsonV::Str(channel@))],
            ),
            one_line(params_json(final(self).commands@.last().params)),
    {
        let mut ms: Vec<(String, Json)> = Vec::new();
        ms.push((String::from_str("channel"), Json::Str(channel)));
        proof {
            assert(members_view(ms@) =~= seq![("channel"@, JsonV::Str(channel@))]);
            lemma_one_line_members1(("channel"@, JsonV::Str(channel@)));
        }
        let cmd = Command {
            method: String::from_str("presence_stats"),
            params: RequestKind::Value(Json::Obj(ms)),
        };
        self.commands.push(cmd);
        Ok(())
    }

    /// Adds a history command.
    pub fn add_history(&mut self, channel: String, opts: Vec<HistoryOption>) -> (r: Result<
        (),
        ClientError,
    >)
        ensures
            r is Ok,
            final(self).commands@ == old(self).commands@.push(final(self).commands@.last()),
            final(self).commands@.last().method@ == "history"@,
            final(self).commands@.last().params matches RequestKind::HistoryRequest(hr)
                && hr.channel == channel && hr.options == apply_history_options(
                HistoryOptions { since: None, limit: None, reverse: None },
                opts@,
            ),
            one_line(params_json(final(self).commands@.last().params)),
    {
        let options = HistoryOptions::build(opts);
        let cmd = Command {
            method: String::from_str("history"),
            params: RequestKind::HistoryRequest(HistoryRequest { channel, options }),
        };
        proof {
            let hr = cmd.params->HistoryRequest_0;
            lemma_history_options_one_line(hr.options);
            lemma_one_line_members2(
                ("channel"@, JsonV::Str(hr.channel@)),
                ("options"@, history_options_json(hr.options)),
            );
        }
        self.commands.push(cmd);
        Ok(())
    }

    /// Adds a history remove command.
    pub fn add_history_remove(&mut self, channel: String) -> (r: Result<(), ClientError>)
        ensures
            r is Ok,
            final(self).commands@ == old(self).commands@.push(final(self).commands@.last()),
            final(self).commands@.last().method@ == "history_remove"@,
            final(self).commands@.last().params matches RequestKind::Value(v) && v@ == JsonV::Obj(
                seq![("channel"@, JsonV::Str(channel@))],
            ),
            one_line(params_json(final(self).commands@.last().params)),
    {
        let mut ms: Vec<(String, Json)> = Vec::new();
        ms.push((String::from_str("channel"), Json::Str(channel)));
        proof {
            assert(members_view(ms@) =~= seq![("channel"@, JsonV::Str(channel@))]);
            lemma_one_line_members1(("channel"@, JsonV::Str(channel@)));
        }
        let cmd = Command {
            method: String::from_str("history_remove"),
            params: RequestKind::Value(Json::Obj(ms)),
        };
        self.commands.push(cmd);
        Ok(())
    }

    /// Adds a channels command.
    pub fn add_channels(&mut self, opts: Vec<ChannelsOption>) -> (r: Result<(), ClientError>)
        ensures
            r is Ok,
            final(self).commands@ == old(self).commands@.push(final(self).commands@.last()),
            final(self).commands@.last().method@ == "channels"@,
            final(self).commands@.last().params matches RequestKind::ChannelsRequest(cr)
                && cr.pattern == apply_channels_options(
                ChannelsOptions { pattern: None },
                opts@,
            ).pattern,
            one_line(params_json(final(self).commands@.last().params)),
    {
        let options = ChannelsOptions::build(opts);
        let cmd = Command {
            method: String::from_str("channels"),
            params: RequestKind::ChannelsRequest(ChannelsRequest { pattern: options.pattern }),
        };
        proof {
            let cr = cmd.params->ChannelsRequest_0;
            lemma_opt_member_one_line(
                "pattern"@,
                if cr.pattern is Some {
                    Some(JsonV::Str(cr.pattern->0@))
                } else {
                    None
                },
            );
        }
        self.commands.push(cmd);
        Ok(())
    }

    /// Adds an info command.
    pub fn add_info(&mut self) -> (r: Result<(), ClientError>)
        ensures
            r is Ok,
            final(self).commands@ == old(self).commands@.push(final(self).commands@.last()),
            final(self).commands@.last().method@ == "info"@,
            final(self).commands@.last().params matches RequestKind::Value(v) && v@ == JsonV::Obj(
                Seq::empty(),
            ),
            one_line(params_json(final(self).commands@.last().params)),
    {
        let ms: Vec<(String, Json)> = Vec::new();
        proof {
            assert(members_view(ms@) =~= Seq::<(Seq<char>, JsonV)>::empty());
        }
        let cmd = Command {
            method: String::from_str("info"),
            params: RequestKind::Value(Json::Obj(ms)),
        };
        self.commands.push(cmd);
        Ok(())
    }
}

} // verus!
