//! Typed decoding of reply payloads: each decoder checks a raw JSON value
//! against its method's schema, all-or-nothing.
use vstd::prelude::*;

use crate::errors::ClientError;
use crate::json::Json;
use crate::json::JsonV;
use crate::json::json_clone;
use crate::json::jsons_view;
use crate::json::members_view;
use crate::parse::is_digit;
use crate::parse::x_is_digit;
use crate::protocol::BroadcastResult;
use crate::protocol::BroadcastResultV;
use crate::protocol::ChannelInfo;
use crate::protocol::ChannelInfoV;
use crate::protocol::ChannelsResult;
use crate::protocol::ChannelsResultV;
use crate::protocol::ClientInfo;
use crate::protocol::ClientInfoV;
use crate::protocol::Error;
use crate::protocol::ErrorV;
use crate::protocol::HistoryResult;
use crate::protocol::HistoryResultV;
use crate::protocol::InfoResult;
use crate::protocol::InfoResultV;
use crate::protocol::NodeInfo;
use crate::protocol::NodeInfoV;
use crate::protocol::PresenceResult;
use crate::protocol::PresenceResultV;
use crate::protocol::PresenceStatsResult;
use crate::protocol::PresenceStatsResultV;
use crate::protocol::Publication;
use crate::protocol::PublicationV;
use crate::protocol::PublishResponse;
use crate::protocol::PublishResponseV;
use crate::protocol::PublishResult;
use crate::protocol::PublishResultV;
use crate::protocol::Reply;
use crate::protocol::ReplyV;

verus! {

broadcast use vstd::std_specs::vec::group_vec_axioms, vstd::seq::group_seq_axioms;

/// The value under the first occurrence of `key` among object members.
pub open spec fn obj_get(ms: Seq<(Seq<char>, JsonV)>, key: Seq<char>) -> Option<JsonV>
    decreases ms.len(),
{
    if ms.len() == 0 {
        None
    } else if ms[0].0 == key {
        Some(ms[0].1)
    } else {
        obj_get(ms.subrange(1, ms.len() as int), key)
    }
}

/// Looks a key up among an object's members.
fn j_get<'a>(ms: &'a Vec<(String, Json)>, key: &str) -> (r: Option<&'a Json>)
    ensures
        r is Some <==> obj_get(members_view(ms@), key@) is Some,
        r is Some ==> r.unwrap()@ == obj_get(members_view(ms@), key@).unwrap(),
{
    let n = ms.len();
    let mut i: usize = 0;
    proof {
        assert(members_view(ms@).subrange(0, n as int) =~= members_view(ms@));
    }
    while i < n
        invariant
            n == ms@.len(),
            i <= n,
            obj_get(members_view(ms@), key@) == obj_get(
                members_view(ms@).subrange(i as int, n as int),
                key@,
            ),
        decreases n - i,
    {
        if crate::text::str_eq(ms[i].0.as_str(), key) {
            proof {
                let tail = members_view(ms@).subrange(i as int, n as int);
                assert(tail[0] == (ms@[i as int].0@, ms@[i as int].1@));
            }
            return Some(&ms[i].1);
        }
        proof {
            let tail = members_view(ms@).subrange(i as int, n as int);
            assert(tail[0] == (ms@[i as int].0@, ms@[i as int].1@));
            assert(tail.subrange(1, tail.len() as int) =~= members_view(ms@).subrange(
                (i + 1) as int,
                n as int,
            ));
        }
        i += 1;
    }
    proof {
        assert(members_view(ms@).subrange(n as int, n as int).len() == 0);
    }
    None
}

/// The numeric value of a decimal digit string.
pub open spec fn digits_val(s: Seq<char>) -> int
    decreases s.len(),
{
    if s.len() == 0 {
        0
    } else {
        digits_val(s.subrange(0, s.len() - 1)) * 10 + (s[s.len() - 1] as u32 - '0' as u32)
    }
}

pub open spec fn all_digits(s: Seq<char>) -> bool {
    forall|k: int| 0 <= k < s.len() ==> is_digit(#[trigger] s[k])
}

/// The unsigned 16-bit value a number token denotes, when it is a plain
/// integer in range: digits only, no redundant leading zero, at most 65535.
pub open spec fn dec_u16(tok: Seq<char>) -> Option<u16> {
    if tok.len() > 0 && all_digits(tok) && (tok.len() == 1 || tok[0] != '0') && digits_val(tok)
        <= u16::MAX {
        Some(digits_val(tok) as u16)
    } else {
        None
    }
}

proof fn lemma_digits_val_nonneg(s: Seq<char>)
    requires
        all_digits(s),
    ensures
        digits_val(s) >= 0,
    decreases s.len(),
{
    if s.len() > 0 {
        let pre = s.subrange(0, s.len() - 1);
        assert(all_digits(pre));
        lemma_digits_val_nonneg(pre);
    }
}

/// A digit string's value never falls when more digits are appended.
proof fn lemma_digits_val_grows(s: Seq<char>, i: int)
    requires
        0 <= i <= s.len(),
        all_digits(s),
    ensures
        digits_val(s.subrange(0, i)) <= digits_val(s),
    decreases s.len() - i,
{
    if i == s.len() {
        assert(s.subrange(0, i) =~= s);
    } else {
        let a = s.subrange(0, i);
        let b = s.subrange(0, i + 1);
        assert(b.subrange(0, b.len() - 1) =~= a);
        assert(all_digits(a));
        lemma_digits_val_nonneg(a);
        assert(digits_val(b) == digits_val(a) * 10 + (s[i] as u32 - '0' as u32));
        assert(digits_val(a) <= digits_val(b));
        lemma_digits_val_grows(s, i + 1);
    }
}

/// Decodes a number token as an unsigned 16-bit integer.
fn parse_u16(tok: &str) -> (r: Option<u16>)
    ensures
        r == dec_u16(tok@),
{
    let n = tok.unicode_len();
    if n == 0 {
        return None;
    }
    if n > 1 && tok.get_char(0) == '0' {
        return None;
    }
    let mut acc: u32 = 0;
    let mut i: usize = 0;
    while i < n
        invariant
            n == tok@.len(),
            n > 0,
            i <= n,
            n == 1 || tok@[0] != '0',
            all_digits(tok@.subrange(0, i as int)),
            acc as int == digits_val(tok@.subrange(0, i as int)),
            acc <= 0xFFFF,
        decreases n - i,
    {
        let c = tok.get_char(i);
        if !x_is_digit(c) {
            assert(!all_digits(tok@));
            return None;
        }
        let d = (c as u32) - 0x30;
        let v = acc * 10 + d;
        proof {
            let a = tok@.subrange(0, i as int);
            let b = tok@.subrange(0, (i + 1) as int);
            assert(b.subrange(0, b.len() - 1) =~= a);
            assert(all_digits(b));
            assert(v as int == digits_val(b));
        }
        if v > 0xFFFF {
            proof {
                if all_digits(tok@) {
                    lemma_digits_val_grows(tok@, (i + 1) as int);
                }
            }
            return None;
        }
        acc = v;
        i += 1;
    }
    proof {
        assert(tok@.subrange(0, n as int) =~= tok@);
    }
    Some(acc as u16)
}

/// The u16 a raw JSON value decodes to, when it is an in-range integer.
pub open spec fn sd_u16(v: JsonV) -> Option<u16> {
    match v {
        JsonV::Num(t) => dec_u16(t),
        _ => None,
    }
}

/// The string a raw JSON value decodes to.
pub open spec fn sd_string(v: JsonV) -> Option<Seq<char>> {
    match v {
        JsonV::Str(s) => Some(s),
        _ => None,
    }
}

/// Optional u16 field: absent or null is `None`; anything else must be an
/// in-range integer, else the decode fails.
pub open spec fn fd_opt_u16(ms: Seq<(Seq<char>, JsonV)>, key: Seq<char>) -> Option<Option<u16>> {
    match obj_get(ms, key) {
        None => Some(None),
        Some(v) => if v == JsonV::Null {
            Some(None)
        } else {
            match sd_u16(v) {
                Some(x) => Some(Some(x)),
                None => None,
            }
        },
    }
}

/// Optional string field: absent or null is `None`.
pub open spec fn fd_opt_string(ms: Seq<(Seq<char>, JsonV)>, key: Seq<char>) -> Option<
    Option<Seq<char>>,
> {
    match obj_get(ms, key) {
        None => Some(None),
        Some(v) => if v == JsonV::Null {
            Some(None)
        } else {
            match sd_string(v) {
                Some(x) => Some(Some(x)),
                None => None,
            }
        },
    }
}

/// Required u16 field.
pub open spec fn fd_req_u16(ms: Seq<(Seq<char>, JsonV)>, key: Seq<char>) -> Option<u16> {
    match obj_get(ms, key) {
        Some(v) => sd_u16(v),
        None => None,
    }
}

/// Required string field.
pub open spec fn fd_req_string(ms: Seq<(Seq<char>, JsonV)>, key: Seq<char>) -> Option<Seq<char>> {
    match obj_get(ms, key) {
        Some(v) => sd_string(v),
        None => None,
    }
}

/// Raw optional field kept as JSON: absent or null is `None`; never fails.
pub open spec fn fd_raw(ms: Seq<(Seq<char>, JsonV)>, key: Seq<char>) -> Option<JsonV> {
    match obj_get(ms, key) {
        None => None,
        Some(v) => if v == JsonV::Null {
            None
        } else {
            Some(v)
        },
    }
}

fn gx_opt_u16(ms: &Vec<(String, Json)>, key: &str) -> (r: Option<Option<u16>>)
    ensures
        r == fd_opt_u16(members_view(ms@), key@),
{
    match j_get(ms, key) {
        None => Some(None),
        Some(v) => match v {
            Json::Null => Some(None),
            Json::Num(t) => match parse_u16(t.as_str()) {
                Some(x) => Some(Some(x)),
                None => None,
            },
            _ => None,
        },
    }
}

fn gx_opt_string(ms: &Vec<(String, Json)>, key: &str) -> (r: Option<Option<String>>)
    ensures
        r is Some <==> fd_opt_string(members_view(ms@), key@) is Some,
        r is Some ==> r.unwrap().deep_view() == fd_opt_string(members_view(ms@), key@).unwrap(),
{
    match j_get(ms, key) {
        None => Some(None),
        Some(v) => match v {
            Json::Null => Some(None),
            Json::Str(s) => Some(Some(s.clone())),
            _ => None,
        },
    }
}

fn gx_req_u16(ms: &Vec<(String, Json)>, key: &str) -> (r: Option<u16>)
    ensures
        r == fd_req_u16(members_view(ms@), key@),
{
    match j_get(ms, key) {
        None => None,
        Some(v) => match v {
            Json::Num(t) => parse_u16(t.as_str()),
            _ => None,
        },
    }
}

fn gx_req_string(ms: &Vec<(String, Json)>, key: &str) -> (r: Option<String>)
    ensures
        r is Some <==> fd_req_string(members_view(ms@), key@) is Some,
        r is Some ==> r.unwrap()@ == fd_req_string(members_view(ms@), key@).unwrap(),
{
    match j_get(ms, key) {
        None => None,
        Some(v) => match v {
            Json::Str(s) => Some(s.clone()),
            _ => None,
        },
    }
}

fn gx_raw(ms: &Vec<(String, Json)>, key: &str) -> (r: Option<Json>)
    ensures
        r is Some <==> fd_raw(members_view(ms@), key@) is Some,
        r is Some ==> r.unwrap()@ == fd_raw(members_view(ms@), key@).unwrap(),
{
    match j_get(ms, key) {
        None => None,
        Some(v) => match v {
            Json::Null => None,
            _ => Some(json_clone(v)),
        },
    }
}

/// Schema of a server-reported error object.
pub open spec fn sd_error(v: JsonV) -> Option<ErrorV> {
    match v {
        JsonV::Obj(ms) => match (fd_req_u16(ms, "code"@), fd_req_string(ms, "message"@)) {
            (Some(c), Some(m)) => Some(ErrorV { code: c, message: m }),
            _ => None,
        },
        _ => None,
    }
}

fn dx_error(v: &Json) -> (r: Option<Error>)
    ensures
        r is Some <==> sd_error(v@) is Some,
        r is Some ==> r.unwrap().deep_view() == sd_error(v@).unwrap(),
{
    match v {
        Json::Obj(ms) => {
            let code = match gx_req_u16(ms, "code") {
                Some(c) => c,
                None => {
                    return None;
                },
            };
            let message = match gx_req_string(ms, "message") {
                Some(m) => m,
                None => {
                    return None;
                },
            };
            Some(Error { code, message })
        },
        _ => None,
    }
}

/// Schema of a publish result.
pub open spec fn sd_publish(v: JsonV) -> Option<PublishResultV> {
    match v {
        JsonV::Obj(ms) => match (fd_opt_u16(ms, "offset"@), fd_opt_string(ms, "epoch"@)) {
            (Some(o), Some(e)) => Some(PublishResultV { offset: o, epoch: e }),
            _ => None,
        },
        _ => None,
    }
}

pub(crate) fn dx_publish(v: &Json) -> (r: Option<PublishResult>)
    ensures
        r is Some <==> sd_publish(v@) is Some,
        r is Some ==> r.unwrap().deep_view() == sd_publish(v@).unwrap(),
{
    match v {
        Json::Obj(ms) => {
            let offset = match gx_opt_u16(ms, "offset") {
                Some(o) => o,
                None => {
                    return None;
                },
            };
            let epoch = match gx_opt_string(ms, "epoch") {
                Some(e) => e,
                None => {
                    return None;
                },
            };
            Some(PublishResult { offset, epoch })
        },
        _ => None,
    }
}

/// The optional error part shared by replies and broadcast responses:
/// absent or null is no error; anything else must decode as an error object.
pub open spec fn fd_opt_error(ms: Seq<(Seq<char>, JsonV)>, key: Seq<char>) -> Option<
    Option<ErrorV>,
> {
    match obj_get(ms, key) {
        None => Some(None),
        Some(v) => if v == JsonV::Null {
            Some(None)
        } else {
            match sd_error(v) {
                Some(e) => Some(Some(e)),
                None => None,
            }
        },
    }
}

fn gx_opt_error(ms: &Vec<(String, Json)>, key: &str) -> (r: Option<Option<Error>>)
    ensures
        r is Some <==> fd_opt_error(members_view(ms@), key@) is Some,
        r is Some ==> r.unwrap().deep_view() == fd_opt_error(members_view(ms@), key@).unwrap(),
{
    match j_get(ms, key) {
        None => Some(None),
        Some(v) => match v {
            Json::Null => Some(None),
            _ => match dx_error(v) {
                Some(e) => Some(Some(e)),
                None => None,
            },
        },
    }
}

/// Schema of one reply line: optional error object, optional raw result.
pub open spec fn sd_reply(v: JsonV) -> Option<ReplyV> {
    match v {
        JsonV::Obj(ms) => match fd_opt_error(ms, "error"@) {
            Some(e) => Some(ReplyV { error: e, result: fd_raw(ms, "result"@) }),
            None => None,
        },
        _ => None,
    }
}

/// Decodes one reply line's JSON value.
pub fn decode_reply_json(v: &Json) -> (r: Option<Reply>)
    ensures
        r is Some <==> sd_reply(v@) is Some,
        r is Some ==> r.unwrap().deep_view() == sd_reply(v@).unwrap(),
{
    match v {
        Json::Obj(ms) => {
            let error = match gx_opt_error(ms, "error") {
                Some(e) => e,
                None => {
                    return None;
                },
            };
            let result = gx_raw(ms, "result");
            Some(Reply { error, result })
        },
        _ => None,
    }
}

/// Schema of client connection information.
pub open spec fn sd_client_info(v: JsonV) -> Option<ClientInfoV> {
    match v {
        JsonV::Obj(ms) => match (fd_req_string(ms, "user"@), fd_req_string(ms, "client"@)) {
            (Some(u), Some(c)) => Some(
                ClientInfoV {
                    user: u,
                    client: c,
                    conn_info: fd_raw(ms, "conn_info"@),
                    chan_info: fd_raw(ms, "chan_info"@),
                },
            ),
            _ => None,
        },
        _ => None,
    }
}

fn dx_client_info(v: &Json) -> (r: Option<ClientInfo>)
    ensures
        r is Some <==> sd_client_info(v@) is Some,
        r is Some ==> r.unwrap().deep_view() == sd_client_info(v@).unwrap(),
{
    match v {
        Json::Obj(ms) => {
            let user = match gx_req_string(ms, "user") {
                Some(u) => u,
                None => {
                    return None;
                },
            };
            let client = match gx_req_string(ms, "client") {
                Some(c) => c,
                None => {
                    return None;
                },
            };
            let conn_info = gx_raw(ms, "conn_info");
            let chan_info = gx_raw(ms, "chan_info");
            Some(ClientInfo { user, client, conn_info, chan_info })
        },
        _ => None,
    }
}

/// The optional client-information part of a publication.
pub open spec fn fd_opt_client_info(ms: Seq<(Seq<char>, JsonV)>, key: Seq<char>) -> Option<
    Option<ClientInfoV>,
> {
    match obj_get(ms, key) {
        None => Some(None),
        Some(v) => if v == JsonV::Null {
            Some(None)
        } else {
            match sd_client_info(v) {
                Some(c) => Some(Some(c)),
                None => None,
            }
        },
    }
}

fn gx_opt_client_info(ms: &Vec<(String, Json)>, key: &str) -> (r: Option<Option<ClientInfo>>)
    ensures
        r is Some <==> fd_opt_client_info(members_view(ms@), key@) is Some,
        r is Some ==> r.unwrap().deep_view() == fd_opt_client_info(
            members_view(ms@),
            key@,
        ).unwrap(),
{
    match j_get(ms, key) {
        None => Some(None),
        Some(v) => match v {
            Json::Null => Some(None),
            _ => match dx_client_info(v) {
                Some(c) => Some(Some(c)),
                None => None,
            },
        },
    }
}

/// Schema of one publication.
pub open spec fn sd_publication(v: JsonV) -> Option<PublicationV> {
    match v {
        JsonV::Obj(ms) => match (
            fd_req_u16(ms, "offset"@),
            obj_get(ms, "data"@),
            fd_opt_client_info(ms, "info"@),
        ) {
            (Some(o), Some(d), Some(ci)) => Some(PublicationV { offset: o, data: d, info: ci }),
            _ => None,
        },
        _ => None,
    }
}

fn dx_publication(v: &Json) -> (r: Option<Publication>)
    ensures
        r is Some <==> sd_publication(v@) is Some,
        r is Some ==> r.unwrap().deep_view() == sd_publication(v@).unwrap(),
{
    match v {
        Json::Obj(ms) => {
            let offset = match gx_req_u16(ms, "offset") {
                Some(o) => o,
                None => {
                    return None;
                },
            };
            let data = match j_get(ms, "data") {
                Some(d) => json_clone(d),
                None => {
                    return None;
                },
            };
            let info = match gx_opt_client_info(ms, "info") {
                Some(ci) => ci,
                None => {
                    return None;
                },
            };
            Some(Publication { offset, data, info })
        },
        _ => None,
    }
}

/// Schema of one node's information.
pub open spec fn sd_node(v: JsonV) -> Option<NodeInfoV> {
    match v {
        JsonV::Obj(ms) => match (
            fd_req_string(ms, "uid"@),
            fd_req_string(ms, "name"@),
            fd_req_string(ms, "version"@),
        ) {
            (Some(uid), Some(name), Some(version)) => match (
                fd_req_u16(ms, "num_clients"@),
                fd_req_u16(ms, "num_users"@),
                fd_req_u16(ms, "num_channels"@),
                fd_req_u16(ms, "uptime"@),
            ) {
                (Some(nc), Some(nu), Some(nch), Some(up)) => Some(
                    NodeInfoV {
                        uid: uid,
                        name: name,
                        version: version,
                        num_clients: nc,
                        num_users: nu,
                        num_channels: nch,
                        uptime: up,
                    },
                ),
                _ => None,
            },
            _ => None,
        },
        _ => None,
    }
}

fn dx_node(v: &Json) -> (r: Option<NodeInfo>)
    ensures
        r is Some <==> sd_node(v@) is Some,
        r is Some ==> r.unwrap().deep_view() == sd_node(v@).unwrap(),
{
    match v {
        Json::Obj(ms) => {
            let uid = match gx_req_string(ms, "uid") {
                Some(x) => x,
                None => {
                    return None;
                },
            };
            let name = match gx_req_string(ms, "name") {
                Some(x) => x,
                None => {
                    return None;
                },
            };
            let version = match gx_req_string(ms, "version") {
                Some(x) => x,
                None => {
                    return None;
                },
            };
            let num_clients = match gx_req_u16(ms, "num_clients") {
                Some(x) => x,
                None => {
                    return None;
                },
            };
            let num_users = match gx_req_u16(ms, "num_users") {
                Some(x) => x,
                None => {
                    return None;
                },
            };
            let num_channels = match gx_req_u16(ms, "num_channels") {
                Some(x) => x,
                None => {
                    return None;
                },
            };
            let uptime = match gx_req_u16(ms, "uptime") {
                Some(x) => x,
                None => {
                    return None;
                },
            };
            Some(NodeInfo { uid, name, version, num_clients, num_users, num_channels, uptime })
        },
        _ => None,
    }
}

/// Schema of one broadcast response: optional error, required publish result.
pub open spec fn sd_publish_response(v: JsonV) -> Option<PublishResponseV> {
    match v {
        JsonV::Obj(ms) => match fd_opt_error(ms, "error"@) {
            Some(e) => match obj_get(ms, "result"@) {
                Some(rv) => match sd_publish(rv) {
                    Some(p) => Some(PublishResponseV { error: e, result: p }),
                    None => None,
                },
                None => None,
            },
            None => None,
        },
        _ => None,
    }
}

fn dx_publish_response(v: &Json) -> (r: Option<PublishResponse>)
    ensures
        r is Some <==> sd_publish_response(v@) is Some,
        r is Some ==> r.unwrap().deep_view() == sd_publish_response(v@).unwrap(),
{
    match v {
        Json::Obj(ms) => {
            let error = match gx_opt_error(ms, "error") {
                Some(e) => e,
                None => {
                    return None;
                },
            };
            let result = match j_get(ms, "result") {
                Some(rv) => match dx_publish(rv) {
                    Some(p) => p,
                    None => {
                        return None;
                    },
                },
                None => {
                    return None;
                },
            };
            Some(PublishResponse { error, result })
        },
        _ => None,
    }
}

/// Element-wise decode of an array of node information.
pub open spec fn sd_nodes(es: Seq<JsonV>) -> Option<Seq<NodeInfoV>> {
    if forall|k: int| 0 <= k < es.len() ==> sd_node(#[trigger] es[k]) is Some {
        Some(Seq::new(es.len(), |k: int| sd_node(es[k]).unwrap()))
    } else {
        None
    }
}

fn dx_nodes(es: &Vec<Json>) -> (r: Option<Vec<NodeInfo>>)
    ensures
        r is Some <==> sd_nodes(jsons_view(es@)) is Some,
        r is Some ==> r.unwrap().deep_view() == sd_nodes(jsons_view(es@)).unwrap(),
{
    let n = es.len();
    let mut out: Vec<NodeInfo> = Vec::new();
    let mut i: usize = 0;
    while i < n
        invariant
            n == es@.len(),
            i <= n,
            out@.len() == i,
            forall|k: int| 0 <= k < i ==> sd_node(#[trigger] jsons_view(es@)[k]) is Some,
            forall|k: int|
                0 <= k < i ==> (#[trigger] out@[k]).deep_view() == sd_node(
                    jsons_view(es@)[k],
                ).unwrap(),
        decreases n - i,
    {
        proof {
            assert(jsons_view(es@)[i as int] == es@[i as int]@);
        }
        match dx_node(&es[i]) {
            Some(x) => {
                out.push(x);
            },
            None => {
                proof {
                    assert(sd_node(jsons_view(es@)[i as int]) is None);
                }
                return None;
            },
        }
        i += 1;
    }
    proof {
        assert(out.deep_view() =~= Seq::new(
            jsons_view(es@).len(),
            |k: int| sd_node(jsons_view(es@)[k]).unwrap(),
        ));
    }
    Some(out)
}

/// Element-wise decode of an array of publications.
pub open spec fn sd_publications(es: Seq<JsonV>) -> Option<Seq<PublicationV>> {
    if forall|k: int| 0 <= k < es.len() ==> sd_publication(#[trigger] es[k]) is Some {
        Some(Seq::new(es.len(), |k: int| sd_publication(es[k]).unwrap()))
    } else {
        None
    }
}

fn dx_publications(es: &Vec<Json>) -> (r: Option<Vec<Publication>>)
    ensures
        r is Some <==> sd_publications(jsons_view(es@)) is Some,
        r is Some ==> r.unwrap().deep_view() == sd_publications(jsons_view(es@)).unwrap(),
{
    let n = es.len();
    let mut out: Vec<Publication> = Vec::new();
    let mut i: usize = 0;
    while i < n
        invariant
            n == es@.len(),
            i <= n,
            out@.len() == i,
            forall|k: int| 0 <= k < i ==> sd_publication(#[trigger] jsons_view(es@)[k]) is Some,
            forall|k: int|
                0 <= k < i ==> (#[trigger] out@[k]).deep_view() == sd_publication(
                    jsons_view(es@)[k],
                ).unwrap(),
        decreases n - i,
    {
        proof {
            assert(jsons_view(es@)[i as int] == es@[i as int]@);
        }
        match dx_publication(&es[i]) {
            Some(x) => {
                out.push(x);
            },
            None => {
                proof {
                    assert(sd_publication(jsons_view(es@)[i as int]) is None);
                }
                return None;
            },
        }
        i += 1;
    }
    proof {
        assert(out.deep_view() =~= Seq::new(
            jsons_view(es@).len(),
            |k: int| sd_publication(jsons_view(es@)[k]).unwrap(),
        ));
    }
    Some(out)
}

/// Element-wise decode of an array of broadcast responses.
pub open spec fn sd_responses(es: Seq<JsonV>) -> Option<Seq<PublishResponseV>> {
    if forall|k: int| 0 <= k < es.len() ==> sd_publish_response(#[trigger] es[k]) is Some {
        Some(Seq::new(es.len(), |k: int| sd_publish_response(es[k]).unwrap()))
    } else {
        None
    }
}

fn dx_responses(es: &Vec<Json>) -> (r: Option<Vec<PublishResponse>>)
    ensures
        r is Some <==> sd_responses(jsons_view(es@)) is Some,
        r is Some ==> r.unwrap().deep_view() == sd_responses(jsons_view(es@)).unwrap(),
{
    let n = es.len();
    let mut out: Vec<PublishResponse> = Vec::new();
    let mut i: usize = 0;
    while i < n
        invariant
            n == es@.len(),
            i <= n,
            out@.len() == i,
            forall|k: int| 0 <= k < i ==> sd_publish_response(#[trigger] jsons_view(es@)[k]) is Some,
            forall|k: int|
                0 <= k < i ==> (#[trigger] out@[k]).deep_view() == sd_publish_response(
                    jsons_view(es@)[k],
                ).unwrap(),
        decreases n - i,
    {
        proof {
            assert(jsons_view(es@)[i as int] == es@[i as int]@);
        }
        match dx_publish_response(&es[i]) {
            Some(x) => {
                out.push(x);
            },
            None => {
                proof {
                    assert(sd_publish_response(jsons_view(es@)[i as int]) is None);
                }
                return None;
            },
        }
        i += 1;
    }
    proof {
        assert(out.deep_view() =~= Seq::new(
            jsons_view(es@).len(),
            |k: int| sd_publish_response(jsons_view(es@)[k]).unwrap(),
        ));
    }
    Some(out)
}


/// Whether any member carries the key.
pub open spec fn has_key<V>(ms: Seq<(Seq<char>, V)>, key: Seq<char>) -> bool {
    exists|j: int| 0 <= j < ms.len() && (#[trigger] ms[j]).0 == key
}

/// One entry per key: when a key repeats, the last occurrence wins, as in a
/// mapping built by sequential insertion.
pub open spec fn dedup_keys<V>(ms: Seq<(Seq<char>, V)>) -> Seq<(Seq<char>, V)>
    decreases ms.len(),
{
    if ms.len() == 0 {
        Seq::empty()
    } else {
        let tail = ms.subrange(1, ms.len() as int);
        if has_key(tail, ms[0].0) {
            dedup_keys(tail)
        } else {
            seq![ms[0]] + dedup_keys(tail)
        }
    }
}

proof fn lemma_dedup_keys_subset<V>(ms: Seq<(Seq<char>, V)>, key: Seq<char>)
    requires
        has_key(dedup_keys(ms), key),
    ensures
        has_key(ms, key),
    decreases ms.len(),
{
    if ms.len() > 0 {
        let tail = ms.subrange(1, ms.len() as int);
        if has_key(tail, ms[0].0) {
            lemma_dedup_keys_subset(tail, key);
            let j = choose|j: int| 0 <= j < tail.len() && (#[trigger] tail[j]).0 == key;
            assert(ms[j + 1].0 == key);
        } else {
            let d = dedup_keys(ms);
            let j = choose|j: int| 0 <= j < d.len() && (#[trigger] d[j]).0 == key;
            if j == 0 {
                assert(ms[0].0 == key);
            } else {
                assert(dedup_keys(tail)[j - 1].0 == key);
                lemma_dedup_keys_subset(tail, key);
                let m = choose|m: int| 0 <= m < tail.len() && (#[trigger] tail[m]).0 == key;
                assert(ms[m + 1].0 == key);
            }
        }
    }
}

/// Law: after dedup, every key appears at most once — the mapping
/// invariant of the presence and channels results.
pub proof fn lemma_dedup_keys_unique<V>(ms: Seq<(Seq<char>, V)>)
    ensures
        forall|k1: int, k2: int|
            0 <= k1 < k2 < dedup_keys(ms).len() ==> (#[trigger] dedup_keys(ms)[k1]).0 != (
            #[trigger] dedup_keys(ms)[k2]).0,
    decreases ms.len(),
{
    if ms.len() > 0 {
        let tail = ms.subrange(1, ms.len() as int);
        lemma_dedup_keys_unique(tail);
        if !has_key(tail, ms[0].0) {
            let d = dedup_keys(ms);
            let dt = dedup_keys(tail);
            assert forall|k1: int, k2: int| 0 <= k1 < k2 < d.len() implies (#[trigger] d[k1]).0
                != (#[trigger] d[k2]).0 by {
                if k1 == 0 {
                    assert(d[k2] == dt[k2 - 1]);
                    if d[0].0 == d[k2].0 {
                        assert(has_key(dt, ms[0].0));
                        lemma_dedup_keys_subset(tail, ms[0].0);
                    }
                } else {
                    assert(d[k1] == dt[k1 - 1]);
                    assert(d[k2] == dt[k2 - 1]);
                }
            }
        }
    }
}

/// Whether any entry carries the key, by character-wise comparison.
fn key_present<V: DeepView>(ms: &Vec<(String, V)>, key: &str) -> (r: bool)
    ensures
        r == has_key(ms.deep_view(), key@),
{
    let n = ms.len();
    let mut i: usize = 0;
    while i < n
        invariant
            n == ms@.len(),
            i <= n,
            forall|j: int| 0 <= j < i ==> (#[trigger] ms.deep_view()[j]).0 != key@,
        decreases n - i,
    {
        proof {
            assert(ms.deep_view()[i as int].0 == ms@[i as int].0@);
        }
        if crate::text::str_eq(ms[i].0.as_str(), key) {
            return true;
        }
        i += 1;
    }
    false
}

/// Keeps one entry per key, the last occurrence winning.
fn dedup_pairs<V: DeepView>(ms: Vec<(String, V)>) -> (r: Vec<(String, V)>)
    ensures
        r.deep_view() == dedup_keys(ms.deep_view()),
    decreases ms.len(),
{
    let ghost dv = ms.deep_view();
    let mut ms = ms;
    if ms.len() == 0 {
        proof {
            assert(ms.deep_view() =~= Seq::<(Seq<char>, V::V)>::empty());
        }
        return ms;
    }
    let head = ms.remove(0);
    proof {
        assert(ms.deep_view() =~= dv.subrange(1, dv.len() as int));
        assert(head.deep_view() == dv[0]);
    }
    let dup = key_present(&ms, head.0.as_str());
    let rest = dedup_pairs(ms);
    if dup {
        rest
    } else {
        let mut rest = rest;
        let ghost rest_dv = rest.deep_view();
        rest.insert(0, head);
        proof {
            assert(rest.deep_view() =~= seq![dv[0]] + rest_dv);
        }
        rest
    }
}

/// Member-wise decode of a presence object: each value decoded as client
/// information, keys kept in order, one entry per key, the last occurrence
/// winning (see [`lemma_dedup_keys_unique`]).
pub open spec fn sd_presence_members(ms: Seq<(Seq<char>, JsonV)>) -> Option<
    Seq<(Seq<char>, ClientInfoV)>,
> {
    if forall|k: int| 0 <= k < ms.len() ==> sd_client_info((#[trigger] ms[k]).1) is Some {
        Some(dedup_keys(Seq::new(ms.len(), |k: int| (ms[k].0, sd_client_info(ms[k].1).unwrap()))))
    } else {
        None
    }
}

fn dx_presence_members(ms: &Vec<(String, Json)>) -> (r: Option<Vec<(String, ClientInfo)>>)
    ensures
        r is Some <==> sd_presence_members(members_view(ms@)) is Some,
        r is Some ==> r.unwrap().deep_view() == sd_presence_members(members_view(ms@)).unwrap(),
{
    let n = ms.len();
    let mut out: Vec<(String, ClientInfo)> = Vec::new();
    let mut i: usize = 0;
    while i < n
        invariant
            n == ms@.len(),
            i <= n,
            out@.len() == i,
            forall|k: int| 0 <= k < i ==> sd_client_info((#[trigger] members_view(ms@)[k]).1) is Some,
            forall|k: int|
                0 <= k < i ==> (#[trigger] out@[k]).deep_view() == (
                    members_view(ms@)[k].0,
                    sd_client_info(members_view(ms@)[k].1).unwrap(),
                ),
        decreases n - i,
    {
        proof {
            assert(members_view(ms@)[i as int] == (ms@[i as int].0@, ms@[i as int].1@));
        }
        match dx_client_info(&ms[i].1) {
            Some(x) => {
                let key = ms[i].0.clone();
                out.push((key, x));
            },
            None => {
                proof {
                    assert(sd_client_info(members_view(ms@)[i as int].1) is None);
                }
                return None;
            },
        }
        i += 1;
    }
    proof {
        assert(out.deep_view() =~= Seq::new(
            members_view(ms@).len(),
            |k: int| (members_view(ms@)[k].0, sd_client_info(members_view(ms@)[k].1).unwrap()),
        ));
    }
    Some(dedup_pairs(out))
}

/// Schema of per-channel counters.
pub open spec fn sd_channel_info(v: JsonV) -> Option<ChannelInfoV> {
    match v {
        JsonV::Obj(ms) => match fd_req_u16(ms, "num_clients"@) {
            Some(nc) => Some(ChannelInfoV { num_clients: nc }),
            None => None,
        },
        _ => None,
    }
}

fn dx_channel_info(v: &Json) -> (r: Option<ChannelInfo>)
    ensures
        r is Some <==> sd_channel_info(v@) is Some,
        r is Some ==> r.unwrap().deep_view() == sd_channel_info(v@).unwrap(),
{
    match v {
        Json::Obj(ms) => match gx_req_u16(ms, "num_clients") {
            Some(nc) => Some(ChannelInfo { num_clients: nc }),
            None => None,
        },
        _ => None,
    }
}

/// Member-wise decode of a channels object: one entry per channel name, the
/// last occurrence winning (see [`lemma_dedup_keys_unique`]).
pub open spec fn sd_channels_members(ms: Seq<(Seq<char>, JsonV)>) -> Option<
    Seq<(Seq<char>, ChannelInfoV)>,
> {
    if forall|k: int| 0 <= k < ms.len() ==> sd_channel_info((#[trigger] ms[k]).1) is Some {
        Some(dedup_keys(Seq::new(ms.len(), |k: int| (ms[k].0, sd_channel_info(ms[k].1).unwrap()))))
    } else {
        None
    }
}

fn dx_channels_members(ms: &Vec<(String, Json)>) -> (r: Option<Vec<(String, ChannelInfo)>>)
    ensures
        r is Some <==> sd_channels_members(members_view(ms@)) is Some,
        r is Some ==> r.unwrap().deep_view() == sd_channels_members(members_view(ms@)).unwrap(),
{
    let n = ms.len();
    let mut out: Vec<(String, ChannelInfo)> = Vec::new();
    let mut i: usize = 0;
    while i < n
        invariant
            n == ms@.len(),
            i <= n,
            out@.len() == i,
            forall|k: int| 0 <= k < i ==> sd_channel_info((#[trigger] members_view(ms@)[k]).1) is Some,
            forall|k: int|
                0 <= k < i ==> (#[trigger] out@[k]).deep_view() == (
                    members_view(ms@)[k].0,
                    sd_channel_info(members_view(ms@)[k].1).unwrap(),
                ),
        decreases n - i,
    {
        proof {
            assert(members_view(ms@)[i as int] == (ms@[i as int].0@, ms@[i as int].1@));
        }
        match dx_channel_info(&ms[i].1) {
            Some(x) => {
                let key = ms[i].0.clone();
                out.push((key, x));
            },
            None => {
                proof {
                    assert(sd_channel_info(members_view(ms@)[i as int].1) is None);
                }
                return None;
            },
        }
        i += 1;
    }
    proof {
        assert(out.deep_view() =~= Seq::new(
            members_view(ms@).len(),
            |k: int| (members_view(ms@)[k].0, sd_channel_info(members_view(ms@)[k].1).unwrap()),
        ));
    }
    Some(dedup_pairs(out))
}

/// Schema of an info result.
pub open spec fn sd_info(v: JsonV) -> Option<InfoResultV> {
    match v {
        JsonV::Obj(ms) => match obj_get(ms, "nodes"@) {
            Some(JsonV::Arr(es)) => match sd_nodes(es) {
                Some(ns) => Some(InfoResultV { nodes: ns }),
                None => None,
            },
            _ => None,
        },
        _ => None,
    }
}

pub(crate) fn dx_info(v: &Json) -> (r: Option<InfoResult>)
    ensures
        r is Some <==> sd_info(v@) is Some,
        r is Some ==> r.unwrap().deep_view() == sd_info(v@).unwrap(),
{
    match v {
        Json::Obj(ms) => match j_get(ms, "nodes") {
            Some(nv) => match nv {
                Json::Arr(es) => match dx_nodes(es) {
                    Some(ns) => Some(InfoResult { nodes: ns }),
                    None => None,
                },
                _ => None,
            },
            None => None,
        },
        _ => None,
    }
}

/// Schema of a broadcast result.
pub open spec fn sd_broadcast(v: JsonV) -> Option<BroadcastResultV> {
    match v {
        JsonV::Obj(ms) => match obj_get(ms, "responses"@) {
            Some(JsonV::Arr(es)) => match sd_responses(es) {
                Some(rs) => Some(BroadcastResultV { responses: rs }),
                None => None,
            },
            _ => None,
        },
        _ => None,
    }
}

pub(crate) fn dx_broadcast(v: &Json) -> (r: Option<BroadcastResult>)
    ensures
        r is Some <==> sd_broadcast(v@) is Some,
        r is Some ==> r.unwrap().deep_view() == sd_broadcast(v@).unwrap(),
{
    match v {
        Json::Obj(ms) => match j_get(ms, "responses") {
            Some(rv) => match rv {
                Json::Arr(es) => match dx_responses(es) {
                    Some(rs) => Some(BroadcastResult { responses: rs }),
                    None => None,
                },
                _ => None,
            },
            None => None,
        },
        _ => None,
    }
}

/// Schema of a presence result.
pub open spec fn sd_presence(v: JsonV) -> Option<PresenceResultV> {
    match v {
        JsonV::Obj(ms) => match obj_get(ms, "presence"@) {
            Some(JsonV::Obj(pms)) => match sd_presence_members(pms) {
                Some(ps) => Some(PresenceResultV { presence: ps }),
                None => None,
            },
            _ => None,
        },
        _ => None,
    }
}

pub(crate) fn dx_presence(v: &Json) -> (r: Option<PresenceResult>)
    ensures
        r is Some <==> sd_presence(v@) is Some,
        r is Some ==> r.unwrap().deep_view() == sd_presence(v@).unwrap(),
{
    match v {
        Json::Obj(ms) => match j_get(ms, "presence") {
            Some(pv) => match pv {
                Json::Obj(pms) => match dx_presence_members(pms) {
                    Some(ps) => Some(PresenceResult { presence: ps }),
                    None => None,
                },
                _ => None,
            },
            None => None,
        },
        _ => None,
    }
}

/// Schema of a presence stats result.
pub open spec fn sd_presence_stats(v: JsonV) -> Option<PresenceStatsResultV> {
    match v {
        JsonV::Obj(ms) => match (fd_req_u16(ms, "num_users"@), fd_req_u16(ms, "num_clients"@)) {
            (Some(nu), Some(nc)) => Some(PresenceStatsResultV { num_users: nu, num_clients: nc }),
            _ => None,
        },
        _ => None,
    }
}

pub(crate) fn dx_presence_stats(v: &Json) -> (r: Option<PresenceStatsResult>)
    ensures
        r is Some <==> sd_presence_stats(v@) is Some,
        r is Some ==> r.unwrap().deep_view() == sd_presence_stats(v@).unwrap(),
{
    match v {
        Json::Obj(ms) => {
            let num_users = match gx_req_u16(ms, "num_users") {
                Some(x) => x,
                None => {
                    return None;
                },
            };
            let num_clients = match gx_req_u16(ms, "num_clients") {
                Some(x) => x,
                None => {
                    return None;
                },
            };
            Some(PresenceStatsResult { num_users, num_clients })
        },
        _ => None,
    }
}

/// Schema of a history result.
pub open spec fn sd_history(v: JsonV) -> Option<HistoryResultV> {
    match v {
        JsonV::Obj(ms) => match obj_get(ms, "publications"@) {
            Some(JsonV::Arr(es)) => match (
                sd_publications(es),
                fd_req_u16(ms, "offset"@),
                fd_req_string(ms, "epoch"@),
            ) {
                (Some(ps), Some(o), Some(e)) => Some(
                    HistoryResultV { publication: ps, offset: o, epoch: e },
                ),
                _ => None,
            },
            _ => None,
        },
        _ => None,
    }
}

pub(crate) fn dx_history(v: &Json) -> (r: Option<HistoryResult>)
    ensures
        r is Some <==> sd_history(v@) is Some,
        r is Some ==> r.unwrap().deep_view() == sd_history(v@).unwrap(),
{
    match v {
        Json::Obj(ms) => {
            let publication = match j_get(ms, "publications") {
                Some(pv) => match pv {
                    Json::Arr(es) => match dx_publications(es) {
                        Some(ps) => ps,
                        None => {
                            return None;
                        },
                    },
                    _ => {
                        return None;
                    },
                },
                None => {
                    return None;
                },
            };
            let offset = match gx_req_u16(ms, "offset") {
                Some(o) => o,
                None => {
                    return None;
                },
            };
            let epoch = match gx_req_string(ms, "epoch") {
                Some(e) => e,
                None => {
                    return None;
                },
            };
            Some(HistoryResult { publication, offset, epoch })
        },
        _ => None,
    }
}

/// Schema of a channels result.
pub open spec fn sd_channels(v: JsonV) -> Option<ChannelsResultV> {
    match v {
        JsonV::Obj(ms) => match obj_get(ms, "channels"@) {
            Some(JsonV::Obj(cms)) => match sd_channels_members(cms) {
                Some(cs) => Some(ChannelsResultV { channels: cs }),
                None => None,
            },
            _ => None,
        },
        _ => None,
    }
}

pub(crate) fn dx_channels(v: &Json) -> (r: Option<ChannelsResult>)
    ensures
        r is Some <==> sd_channels(v@) is Some,
        r is Some ==> r.unwrap().deep_view() == sd_channels(v@).unwrap(),
{
    match v {
        Json::Obj(ms) => match j_get(ms, "channels") {
            Some(cv) => match cv {
                Json::Obj(cms) => match dx_channels_members(cms) {
                    Some(cs) => Some(ChannelsResult { channels: cs }),
                    None => None,
                },
                _ => None,
            },
            None => None,
        },
        _ => None,
    }
}

/// The JSON value a byte payload holds: the bytes must be valid UTF-8 and
/// the text exactly one JSON value.
pub open spec fn bytes_json(b: Seq<u8>) -> Option<JsonV> {
    if vstd::utf8::valid_utf8(b) {
        crate::parse::sp_json(vstd::utf8::decode_utf8(b))
    } else {
        None
    }
}

fn parse_bytes(b: &[u8]) -> (r: Option<Json>)
    requires
        b@.len() <= 0x1000_0000_0000_0000,
    ensures
        r is Some <==> bytes_json(b@) is Some,
        r is Some ==> r.unwrap()@ == bytes_json(b@).unwrap(),
{
    match crate::text::bytes_to_str(b) {
        Some(s) => crate::parse::parse_json_text(s),
        None => None,
    }
}

/// What decoding a publish payload yields, if anything.
pub open spec fn spec_decode_publish(b: Seq<u8>) -> Option<PublishResultV> {
    match bytes_json(b) {
        Some(v) => sd_publish(v),
        None => None,
    }
}

/// Decodes a raw publish result payload; any deviation from the schema
/// fails the decode as a whole.
pub fn decode_publish(result: &[u8]) -> (r: Result<PublishResult, ClientError>)
    requires
        result@.len() <= 0x1000_0000_0000_0000,
    ensures
        r is Ok <==> spec_decode_publish(result@) is Some,
        r is Ok ==> r.unwrap().deep_view() == spec_decode_publish(result@).unwrap(),
        r is Err ==> r->Err_0 is Decode,
{
    match parse_bytes(result) {
        Some(j) => match dx_publish(&j) {
            Some(p) => Ok(p),
            None => Err(ClientError::Decode),
        },
        None => Err(ClientError::Decode),
    }
}

/// What decoding a broadcast payload yields, if anything.
pub open spec fn spec_decode_broadcast(b: Seq<u8>) -> Option<BroadcastResultV> {
    match bytes_json(b) {
        Some(v) => sd_broadcast(v),
        None => None,
    }
}

/// Decodes a raw broadcast result payload.
pub fn decode_broadcast(result: &[u8]) -> (r: Result<BroadcastResult, ClientError>)
    requires
        result@.len() <= 0x1000_0000_0000_0000,
    ensures
        r is Ok <==> spec_decode_broadcast(result@) is Some,
        r is Ok ==> r.unwrap().deep_view() == spec_decode_broadcast(result@).unwrap(),
        r is Err ==> r->Err_0 is Decode,
{
    match parse_bytes(result) {
        Some(j) => match dx_broadcast(&j) {
            Some(p) => Ok(p),
            None => Err(ClientError::Decode),
        },
        None => Err(ClientError::Decode),
    }
}

/// What decoding a history payload yields, if anything.
pub open spec fn spec_decode_history(b: Seq<u8>) -> Option<HistoryResultV> {
    match bytes_json(b) {
        Some(v) => sd_history(v),
        None => None,
    }
}

/// Decodes a raw history result payload.
pub fn decode_history(result: &[u8]) -> (r: Result<HistoryResult, ClientError>)
    requires
        result@.len() <= 0x1000_0000_0000_0000,
    ensures
        r is Ok <==> spec_decode_history(result@) is Some,
        r is Ok ==> r.unwrap().deep_view() == spec_decode_history(result@).unwrap(),
        r is Err ==> r->Err_0 is Decode,
{
    match parse_bytes(result) {
        Some(j) => match dx_history(&j) {
            Some(p) => Ok(p),
            None => Err(ClientError::Decode),
        },
        None => Err(ClientError::Decode),
    }
}

/// What decoding a channels payload yields, if anything.
pub open spec fn spec_decode_channels(b: Seq<u8>) -> Option<ChannelsResultV> {
    match bytes_json(b) {
        Some(v) => sd_channels(v),
        None => None,
    }
}

/// Decodes a raw channels result payload.
pub fn decode_channels(result: &[u8]) -> (r: Result<ChannelsResult, ClientError>)
    requires
        result@.len() <= 0x1000_0000_0000_0000,
    ensures
        r is Ok <==> spec_decode_channels(result@) is Some,
        r is Ok ==> r.unwrap().deep_view() == spec_decode_channels(result@).unwrap(),
        r is Err ==> r->Err_0 is Decode,
{
    match parse_bytes(result) {
        Some(j) => match dx_channels(&j) {
            Some(p) => Ok(p),
            None => Err(ClientError::Decode),
        },
        None => Err(ClientError::Decode),
    }
}

/// What decoding an info payload yields, if anything.
pub open spec fn spec_decode_info(b: Seq<u8>) -> Option<InfoResultV> {
    match bytes_json(b) {
        Some(v) => sd_info(v),
        None => None,
    }
}

/// Decodes a raw info result payload.
pub fn decode_info(result: &[u8]) -> (r: Result<InfoResult, ClientError>)
    requires
        result@.len() <= 0x1000_0000_0000_0000,
    ensures
        r is Ok <==> spec_decode_info(result@) is Some,
        r is Ok ==> r.unwrap().deep_view() == spec_decode_info(result@).unwrap(),
        r is Err ==> r->Err_0 is Decode,
{
    match parse_bytes(result) {
        Some(j) => match dx_info(&j) {
            Some(p) => Ok(p),
            None => Err(ClientError::Decode),
        },
        None => Err(ClientError::Decode),
    }
}

/// What decoding a presence payload yields, if anything.
pub open spec fn spec_decode_presence(b: Seq<u8>) -> Option<PresenceResultV> {
    match bytes_json(b) {
        Some(v) => sd_presence(v),
        None => None,
    }
}

/// Decodes a raw presence result payload.
pub fn decode_presence(result: &[u8]) -> (r: Result<PresenceResult, ClientError>)
    requires
        result@.len() <= 0x1000_0000_0000_0000,
    ensures
        r is Ok <==> spec_decode_presence(result@) is Some,
        r is Ok ==> r.unwrap().deep_view() == spec_decode_presence(result@).unwrap(),
        r is Err ==> r->Err_0 is Decode,
{
    match parse_bytes(result) {
        Some(j) => match dx_presence(&j) {
            Some(p) => Ok(p),
            None => Err(ClientError::Decode),
        },
        None => Err(ClientError::Decode),
    }
}

/// What decoding a presence stats payload yields, if anything.
pub open spec fn spec_decode_presence_stats(b: Seq<u8>) -> Option<PresenceStatsResultV> {
    match bytes_json(b) {
        Some(v) => sd_presence_stats(v),
        None => None,
    }
}

/// Decodes a raw presence stats result payload.
pub fn decode_presence_stats(result: &[u8]) -> (r: Result<PresenceStatsResult, ClientError>)
    requires
        result@.len() <= 0x1000_0000_0000_0000,
    ensures
        r is Ok <==> spec_decode_presence_stats(result@) is Some,
        r is Ok ==> r.unwrap().deep_view() == spec_decode_presence_stats(result@).unwrap(),
        r is Err ==> r->Err_0 is Decode,
{
    match parse_bytes(result) {
        Some(j) => match dx_presence_stats(&j) {
            Some(p) => Ok(p),
            None => Err(ClientError::Decode),
        },
        None => Err(ClientError::Decode),
    }
}

} // verus!
