//! The transport client: turns one batch into exactly one outbound request
//! and maps the response back to an ordered list of replies. The HTTP round
//! trip itself is I/O and lives outside the library; everything decided
//! around it is here, with exact contracts.
use vstd::prelude::*;

use crate::decode::decode_reply_json;
use crate::decode::dx_broadcast;
use crate::decode::dx_channels;
use crate::decode::dx_history;
use crate::decode::dx_info;
use crate::decode::dx_presence;
use crate::decode::dx_presence_stats;
use crate::decode::dx_publish;
use crate::decode::sd_broadcast;
use crate::decode::sd_channels;
use crate::decode::sd_history;
use crate::decode::sd_info;
use crate::decode::sd_presence;
use crate::decode::sd_presence_stats;
use crate::decode::sd_publish;
use crate::decode::sd_reply;
use crate::errors::ClientError;
use crate::json::JsonV;
use crate::json::lemma_ser_one_line;
use crate::json::no_nl;
use crate::json::one_line;
use crate::json::one_line_members;
use crate::parse::sp_json;
use crate::pipe::Command;
use crate::pipe::Pipe;
use crate::pipe::command_json;
use crate::pipe::encode_commands;
use crate::pipe::ndjson;
use crate::pipe::params_json;
use crate::pipe::ser_command;
use crate::protocol::BroadcastResult;
use crate::protocol::ChannelsResult;
use crate::protocol::HistoryResult;
use crate::protocol::InfoResult;
use crate::protocol::PresenceResult;
use crate::protocol::PresenceStatsResult;
use crate::protocol::PublishResult;
use crate::protocol::Reply;
use crate::protocol::ReplyV;

pub use crate::decode::decode_broadcast;
pub use crate::decode::decode_channels;
pub use crate::decode::decode_history;
pub use crate::decode::decode_info;
pub use crate::decode::decode_presence;
pub use crate::decode::decode_presence_stats;
pub use crate::decode::decode_publish;
pub use crate::errors::ErrStatusCode;

verus! {

broadcast use vstd::std_specs::vec::group_vec_axioms, vstd::seq::group_seq_axioms;

/// Connection configuration.
#[derive(Debug)]
pub struct Config {
    /// The server's API endpoint.
    pub addr: Option<String>,
    /// The API key attached to every request.
    pub key: Option<String>,
}

/// API client for a project registered on the server. Immutable after
/// construction; safe to share across batches.
#[derive(Debug)]
pub struct Client {
    pub endpoint: Option<String>,
    pub api_key: Option<String>,
}

/// Everything one HTTP round trip needs: where to post, which authorization
/// header to attach, and the body. The content type is always
/// `application/json`.
#[derive(Debug)]
pub struct WireRequest {
    pub url: String,
    pub authorization: Option<String>,
    pub body: String,
}

impl Client {
    /// Creates a new client from its configuration.
    pub fn new(config: Config) -> (c: Client)
        ensures
            c.endpoint == config.addr,
            c.api_key == config.key,
    {
        Client { endpoint: config.addr, api_key: config.key }
    }

    /// A new, empty pipe for batching several commands into one request.
    pub fn pipe(&self) -> (p: Pipe)
        ensures
            p.commands@.len() == 0,
    {
        Pipe::new()
    }

    /// The endpoint this request goes to: the resolver's answer when a
    /// resolver is configured (its failure aborts the call), else the
    /// static endpoint.
    pub fn select_endpoint(&self, resolved: Option<Result<String, String>>) -> (r: Result<
        String,
        ClientError,
    >)
        requires
            resolved is None ==> self.endpoint is Some,
        ensures
            resolved matches Some(Ok(u)) ==> r is Ok && r->Ok_0 == u,
            resolved matches Some(Err(m)) ==> (r matches Err(
                ClientError::EndpointResolutionFailed(m2),
            ) && m2 == m),
            resolved is None ==> r is Ok && r->Ok_0@ == self.endpoint->0@,
    {
        match resolved {
            Some(Ok(u)) => Ok(u),
            Some(Err(m)) => Err(ClientError::EndpointResolutionFailed(m)),
            None => match &self.endpoint {
                Some(e) => Ok(e.clone()),
                None => vstd::pervasive::unreached(),
            },
        }
    }

    /// Builds the one outbound request for a command list: the body is the
    /// commands' lines in order, and the authorization header carries the
    /// configured key.
    pub fn prepare_request(&self, endpoint: String, commands: &Vec<Command>) -> (r: WireRequest)
        ensures
            r.url == endpoint,
            r.body@ == ndjson(commands@),
            self.api_key is None ==> r.authorization is None,
            self.api_key is Some ==> r.authorization is Some && r.authorization->0@ == "apikey "@
                + self.api_key->0@,
    {
        let body = encode_commands(commands);
        let authorization = match &self.api_key {
            Some(k) => Some(String::from_str("apikey ").concat(k.as_str())),
            None => None,
        };
        WireRequest { url: endpoint, authorization, body }
    }
}

/// Guards a send: a batch holding no commands is refused before any
/// request is made.
pub fn check_not_empty(pipe: &Pipe) -> (r: Result<(), ClientError>)
    ensures
        r is Err <==> pipe.commands@.len() == 0,
        r is Err ==> r->Err_0 is EmptyBatch,
{
    if pipe.commands.len() == 0 {
        Err(ClientError::EmptyBatch)
    } else {
        Ok(())
    }
}

/// The number of characters to the first newline at or after `i`.
pub open spec fn nl_dist(s: Seq<char>, i: int) -> nat
    decreases s.len() - i,
{
    if 0 <= i < s.len() {
        if s[i] == '\n' {
            0
        } else {
            1 + nl_dist(s, i + 1)
        }
    } else {
        0
    }
}

/// A line with one trailing carriage return removed, as a newline-terminated
/// wire line appears after splitting.
pub open spec fn strip_cr(l: Seq<char>) -> Seq<char> {
    if l.len() > 0 && l[l.len() - 1] == '\r' {
        l.subrange(0, l.len() - 1)
    } else {
        l
    }
}

/// The reply one line decodes to, if any: the line must be one JSON value
/// of the reply shape.
pub open spec fn reply_of_line(l: Seq<char>) -> Option<ReplyV> {
    match sp_json(l) {
        Some(v) => sd_reply(v),
        None => None,
    }
}

/// The significant lines of a reply stream from `i` on: split at newlines,
/// each line stripped of one trailing carriage return, blank lines skipped.
pub open spec fn lines_from(s: Seq<char>, i: int) -> Seq<Seq<char>>
    decreases s.len() - i,
{
    if !(0 <= i <= s.len()) {
        Seq::empty()
    } else {
        let k = i + nl_dist(s, i);
        if k >= s.len() {
            let l = strip_cr(s.subrange(i, s.len() as int));
            if l.len() == 0 {
                Seq::empty()
            } else {
                seq![l]
            }
        } else {
            let l = strip_cr(s.subrange(i, k));
            if l.len() == 0 {
                lines_from(s, k + 1)
            } else {
                seq![l] + lines_from(s, k + 1)
            }
        }
    }
}

/// The significant (non-blank) lines of a whole reply stream.
pub open spec fn reply_lines(s: Seq<char>) -> Seq<Seq<char>> {
    lines_from(s, 0)
}

/// The replies of a reply stream from `i` on: each non-blank line is
/// decoded independently, blank lines are skipped, and any non-blank line
/// that fails to decode fails the whole stream.
pub open spec fn replies_from(s: Seq<char>, i: int) -> Option<Seq<ReplyV>>
    decreases s.len() - i,
{
    if !(0 <= i <= s.len()) {
        None
    } else {
        let k = i + nl_dist(s, i);
        if k >= s.len() {
            let l = strip_cr(s.subrange(i, s.len() as int));
            if l.len() == 0 {
                Some(Seq::empty())
            } else {
                match reply_of_line(l) {
                    Some(r) => Some(seq![r]),
                    None => None,
                }
            }
        } else {
            let l = strip_cr(s.subrange(i, k));
            if l.len() == 0 {
                replies_from(s, k + 1)
            } else {
                match reply_of_line(l) {
                    Some(r) => match replies_from(s, k + 1) {
                        Some(rest) => Some(seq![r] + rest),
                        None => None,
                    },
                    None => None,
                }
            }
        }
    }
}

/// The ordered replies a whole reply stream decodes to, if every line
/// decodes.
pub open spec fn stream_replies(s: Seq<char>) -> Option<Seq<ReplyV>> {
    replies_from(s, 0)
}

proof fn lemma_replies_match_lines(s: Seq<char>, i: int)
    requires
        0 <= i <= s.len(),
        replies_from(s, i) is Some,
    ensures
        replies_from(s, i)->Some_0.len() == lines_from(s, i).len(),
        forall|j: int|
            0 <= j < lines_from(s, i).len() ==> reply_of_line(#[trigger] lines_from(s, i)[j])
                is Some && replies_from(s, i)->Some_0[j] == reply_of_line(lines_from(s, i)[j])->Some_0,
    decreases s.len() - i,
{
    let k = i + nl_dist(s, i);
    if k >= s.len() {
    } else {
        lemma_replies_match_lines(s, k + 1);
    }
}


/// Law: positional correlation of the reply stream. When the stream
/// decodes, it yields exactly one reply per line, and the i-th decoded
/// reply is exactly what the i-th line decodes to; the server contract
/// pairs that line with the i-th submitted command.
pub proof fn lemma_reply_correlation(s: Seq<char>)
    requires
        stream_replies(s) is Some,
    ensures
        stream_replies(s)->Some_0.len() == reply_lines(s).len(),
        forall|j: int|
            0 <= j < reply_lines(s).len() ==> reply_of_line(#[trigger] reply_lines(s)[j]) is Some
                && stream_replies(s)->Some_0[j] == reply_of_line(reply_lines(s)[j])->Some_0,
{
    lemma_replies_match_lines(s, 0);
}

/// Advances to the next newline.
fn x_nl_dist(s: &str, n: usize, i: usize) -> (r: usize)
    requires
        n == s@.len(),
        i <= n,
    ensures
        i <= r <= n,
        r as int == i + nl_dist(s@, i as int),
        r < n ==> s@[r as int] == '\n',
{
    let mut j: usize = i;
    loop
        invariant
            n == s@.len(),
            i <= j <= n,
            nl_dist(s@, i as int) == (j - i) + nl_dist(s@, j as int),
        ensures
            i <= j <= n,
            nl_dist(s@, i as int) == (j - i) + nl_dist(s@, j as int),
            j == n || s@[j as int] == '\n',
        decreases n - j,
    {
        if j < n {
            if s.get_char(j) != '\n' {
                j += 1;
                continue ;
            }
        }
        break ;
    }
    j
}

/// Decodes the reply lines of a stream from `i` on.
#[verifier::rlimit(60)]
fn x_replies_from(s: &str, n: usize, i: usize) -> (r: Option<Vec<Reply>>)
    requires
        n == s@.len(),
        i <= n,
        n <= 0x1000_0000_0000_0000,
    ensures
        r is Some <==> replies_from(s@, i as int) is Some,
        r is Some ==> r.unwrap().deep_view() == replies_from(s@, i as int)->Some_0,
    decreases n - i,
{
    let k = x_nl_dist(s, n, i);
    if k >= n {
        let e = if n > i && s.get_char(n - 1) == '\r' {
            n - 1
        } else {
            n
        };
        proof {
            assert(strip_cr(s@.subrange(i as int, n as int)) =~= s@.subrange(i as int, e as int));
        }
        if e == i {
            let empty: Vec<Reply> = Vec::new();
            proof {
                assert(empty.deep_view() =~= Seq::<ReplyV>::empty());
            }
            Some(empty)
        } else {
            let line = s.substring_char(i, e);
            match line_reply(line) {
                Some(rep) => {
                    let mut one: Vec<Reply> = Vec::new();
                    let ghost rv = rep.deep_view();
                    one.push(rep);
                    proof {
                        assert(one.deep_view() =~= seq![rv]);
                    }
                    Some(one)
                },
                None => None,
            }
        }
    } else {
        let e = if k > i && s.get_char(k - 1) == '\r' {
            k - 1
        } else {
            k
        };
        proof {
            assert(strip_cr(s@.subrange(i as int, k as int)) =~= s@.subrange(i as int, e as int));
        }
        if e == i {
            x_replies_from(s, n, k + 1)
        } else {
            let line = s.substring_char(i, e);
            match line_reply(line) {
                Some(rep) => match x_replies_from(s, n, k + 1) {
                    Some(rest) => {
                        let mut rest = rest;
                        let ghost prev = rest.deep_view();
                        let ghost rv = rep.deep_view();
                        rest.insert(0, rep);
                        proof {
                            assert(rest.deep_view() =~= seq![rv] + prev);
                        }
                        Some(rest)
                    },
                    None => None,
                },
                None => None,
            }
        }
    }
}

/// Decodes one reply line.
fn line_reply(line: &str) -> (r: Option<Reply>)
    requires
        line@.len() <= 0x1000_0000_0000_0000,
    ensures
        r is Some <==> reply_of_line(line@) is Some,
        r is Some ==> r.unwrap().deep_view() == reply_of_line(line@)->Some_0,
{
    match crate::parse::parse_json_text(line) {
        Some(j) => decode_reply_json(&j),
        None => None,
    }
}

/// Maps one HTTP response to the ordered reply list: a non-success status
/// aborts the call with the status and raw body before any decoding; on
/// success every non-blank line must decode, else the call fails as
/// malformed. Blank lines, including a trailing one, are tolerated.
pub fn process_response(status: u16, body: String) -> (r: Result<Vec<Reply>, ClientError>)
    requires
        body@.len() <= 0x1000_0000_0000_0000,
    ensures
        !(200 <= status < 300) ==> (r matches Err(ClientError::StatusCode(e)) && e.code == status
            && e.body@ == body@),
        (200 <= status < 300) ==> match stream_replies(body@) {
            Some(rs) => r is Ok && r->Ok_0.deep_view() == rs,
            None => r matches Err(e) && e is MalformedResponse,
        },
{
    if !(200 <= status && status < 300) {
        return Err(ClientError::StatusCode(ErrStatusCode { code: status, body }));
    }
    let n = body.as_str().unicode_len();
    match x_replies_from(body.as_str(), n, 0) {
        Some(rs) => Ok(rs),
        None => Err(ClientError::MalformedResponse),
    }
}

/// Protects callers from silently misaligned correlation: the reply count
/// must equal the number of submitted commands.
pub fn check_reply_count(n_commands: usize, replies: Vec<Reply>) -> (r: Result<
    Vec<Reply>,
    ClientError,
>)
    ensures
        replies@.len() == n_commands ==> r is Ok && r->Ok_0 == replies,
        replies@.len() != n_commands ==> (r matches Err(e) && e is MalformedResponse),
{
    if replies.len() != n_commands {
        Err(ClientError::MalformedResponse)
    } else {
        Ok(replies)
    }
}

proof fn lemma_nl_dist_props(s: Seq<char>, i: int)
    requires
        0 <= i <= s.len(),
    ensures
        i + nl_dist(s, i) <= s.len(),
        i + nl_dist(s, i) < s.len() ==> s[i + nl_dist(s, i)] == '\n',
    decreases s.len() - i,
{
    if i < s.len() && s[i] != '\n' {
        lemma_nl_dist_props(s, i + 1);
    }
}

proof fn lemma_nl_dist_push(s: Seq<char>, i: int)
    requires
        0 <= i <= s.len(),
    ensures
        i + nl_dist(s, i) < s.len() ==> nl_dist(s.push('\n'), i) == nl_dist(s, i),
        i + nl_dist(s, i) >= s.len() ==> i + nl_dist(s.push('\n'), i) == s.len(),
    decreases s.len() - i,
{
    let t = s.push('\n');
    if i < s.len() {
        if s[i] == '\n' {
            assert(t[i] == '\n');
        } else {
            assert(t[i] == s[i]);
            lemma_nl_dist_push(s, i + 1);
        }
    } else {
        assert(t[i] == '\n');
    }
}

proof fn lemma_trailing_newline_from(s: Seq<char>, i: int)
    requires
        0 <= i <= s.len(),
    ensures
        replies_from(s.push('\n'), i) == replies_from(s, i),
    decreases s.len() - i,
{
    let t = s.push('\n');
    lemma_nl_dist_props(s, i);
    lemma_nl_dist_push(s, i);
    let k = i + nl_dist(s, i);
    if k < s.len() {
        assert(i + nl_dist(t, i) == k);
        assert(t.subrange(i, k) =~= s.subrange(i, k));
        lemma_trailing_newline_from(s, k + 1);
    } else {
        assert(k == s.len());
        assert(i + nl_dist(t, i) == s.len());
        assert(t.subrange(i, s.len() as int) =~= s.subrange(i, s.len() as int));
        let l = strip_cr(s.subrange(i, s.len() as int));
        assert(t.subrange(s.len() as int + 1, t.len() as int) =~= Seq::<char>::empty());
        assert(replies_from(t, s.len() as int + 1) == Some(Seq::<ReplyV>::empty()));
        if l.len() == 0 {
        } else {
            match reply_of_line(l) {
                Some(r) => {
                    assert(seq![r] + Seq::<ReplyV>::empty() =~= seq![r]);
                },
                None => {},
            }
        }
    }
}

/// Law: appending one line terminator to a reply stream never changes its
/// decode — a trailing blank line yields the same replies, for every body.
pub proof fn lemma_trailing_newline(s: Seq<char>)
    ensures
        stream_replies(s.push('\n')) == stream_replies(s),
{
    lemma_trailing_newline_from(s, 0);
}

/// Takes the single reply a one-command batch is owed: no reply is a
/// failure, a server-reported error is surfaced as the remote error.
fn take_first_reply(replies: Vec<Reply>) -> (r: Result<Reply, ClientError>)
    ensures
        replies@.len() == 0 ==> (r matches Err(e) && e is NoReply),
        replies@.len() > 0 && replies@[0].error is Some ==> (r matches Err(ClientError::Remote(e))
            && e == replies@[0].error->0),
        replies@.len() > 0 && replies@[0].error is None ==> r is Ok && r->Ok_0 == replies@[0],
{
    let mut rs = replies;
    if rs.len() == 0 {
        return Err(ClientError::NoReply);
    }
    let first = rs.remove(0);
    match first.error {
        Some(e) => Err(ClientError::Remote(e)),
        None => Ok(Reply { error: None, result: first.result }),
    }
}

/// The publish result carried by the first reply of a one-command batch.
pub fn publish_from_replies(replies: Vec<Reply>) -> (r: Result<PublishResult, ClientError>)
    ensures
        replies@.len() == 0 ==> (r matches Err(e) && e is NoReply),
        replies@.len() > 0 && replies@[0].error is Some ==> (r matches Err(ClientError::Remote(e))
            && e == replies@[0].error->0),
        replies@.len() > 0 && replies@[0].error is None ==> match replies@[0].result {
            Some(v) => match sd_publish(v@) {
                Some(p) => r is Ok && r->Ok_0.deep_view() == p,
                None => r matches Err(e) && e is Decode,
            },
            None => r matches Err(e) && e is Decode,
        },
{
    let first = match take_first_reply(replies) {
        Ok(f) => f,
        Err(e) => {
            return Err(e);
        },
    };
    match first.result {
        Some(v) => match dx_publish(&v) {
            Some(p) => Ok(p),
            None => Err(ClientError::Decode),
        },
        None => Err(ClientError::Decode),
    }
}

/// The broadcast result carried by the first reply of a one-command batch.
pub fn broadcast_from_replies(replies: Vec<Reply>) -> (r: Result<BroadcastResult, ClientError>)
    ensures
        replies@.len() == 0 ==> (r matches Err(e) && e is NoReply),
        replies@.len() > 0 && replies@[0].error is Some ==> (r matches Err(ClientError::Remote(e))
            && e == replies@[0].error->0),
        replies@.len() > 0 && replies@[0].error is None ==> match replies@[0].result {
            Some(v) => match sd_broadcast(v@) {
                Some(p) => r is Ok && r->Ok_0.deep_view() == p,
                None => r matches Err(e) && e is Decode,
            },
            None => r matches Err(e) && e is Decode,
        },
{
    let first = match take_first_reply(replies) {
        Ok(f) => f,
        Err(e) => {
            return Err(e);
        },
    };
    match first.result {
        Some(v) => match dx_broadcast(&v) {
            Some(p) => Ok(p),
            None => Err(ClientError::Decode),
        },
        None => Err(ClientError::Decode),
    }
}

/// The presence result carried by the first reply of a one-command batch.
pub fn presence_from_replies(replies: Vec<Reply>) -> (r: Result<PresenceResult, ClientError>)
    ensures
        replies@.len() == 0 ==> (r matches Err(e) && e is NoReply),
        replies@.len() > 0 && replies@[0].error is Some ==> (r matches Err(ClientError::Remote(e))
            && e == replies@[0].error->0),
        replies@.len() > 0 && replies@[0].error is None ==> match replies@[0].result {
            Some(v) => match sd_presence(v@) {
                Some(p) => r is Ok && r->Ok_0.deep_view() == p,
                None => r matches Err(e) && e is Decode,
            },
            None => r matches Err(e) && e is Decode,
        },
{
    let first = match take_first_reply(replies) {
        Ok(f) => f,
        Err(e) => {
            return Err(e);
        },
    };
    match first.result {
        Some(v) => match dx_presence(&v) {
            Some(p) => Ok(p),
            None => Err(ClientError::Decode),
        },
        None => Err(ClientError::Decode),
    }
}

/// The presence stats result carried by the first reply of a one-command
/// batch.
pub fn presence_stats_from_replies(replies: Vec<Reply>) -> (r: Result<
    PresenceStatsResult,
    ClientError,
>)
    ensures
        replies@.len() == 0 ==> (r matches Err(e) && e is NoReply),
        replies@.len() > 0 && replies@[0].error is Some ==> (r matches Err(ClientError::Remote(e))
            && e == replies@[0].error->0),
        replies@.len() > 0 && replies@[0].error is None ==> match replies@[0].result {
            Some(v) => match sd_presence_stats(v@) {
                Some(p) => r is Ok && r->Ok_0.deep_view() == p,
                None => r matches Err(e) && e is Decode,
            },
            None => r matches Err(e) && e is Decode,
        },
{
    let first = match take_first_reply(replies) {
        Ok(f) => f,
        Err(e) => {
            return Err(e);
        },
    };
    match first.result {
        Some(v) => match dx_presence_stats(&v) {
            Some(p) => Ok(p),
            None => Err(ClientError::Decode),
        },
        None => Err(ClientError::Decode),
    }
}

/// The history result carried by the first reply of a one-command batch.
pub fn history_from_replies(replies: Vec<Reply>) -> (r: Result<HistoryResult, ClientError>)
    ensures
        replies@.len() == 0 ==> (r matches Err(e) && e is NoReply),
        replies@.len() > 0 && replies@[0].error is Some ==> (r matches Err(ClientError::Remote(e))
            && e == replies@[0].error->0),
        replies@.len() > 0 && replies@[0].error is None ==> match replies@[0].result {
            Some(v) => match sd_history(v@) {
                Some(p) => r is Ok && r->Ok_0.deep_view() == p,
                None => r matches Err(e) && e is Decode,
            },
            None => r matches Err(e) && e is Decode,
        },
{
    let first = match take_first_reply(replies) {
        Ok(f) => f,
        Err(e) => {
            return Err(e);
        },
    };
    match first.result {
        Some(v) => match dx_history(&v) {
            Some(p) => Ok(p),
            None => Err(ClientError::Decode),
        },
        None => Err(ClientError::Decode),
    }
}

/// The channels result carried by the first reply of a one-command batch.
pub fn channels_from_replies(replies: Vec<Reply>) -> (r: Result<ChannelsResult, ClientError>)
    ensures
        replies@.len() == 0 ==> (r matches Err(e) && e is NoReply),
        replies@.len() > 0 && replies@[0].error is Some ==> (r matches Err(ClientError::Remote(e))
            && e == replies@[0].error->0),
        replies@.len() > 0 && replies@[0].error is None ==> match replies@[0].result {
            Some(v) => match sd_channels(v@) {
                Some(p) => r is Ok && r->Ok_0.deep_view() == p,
                None => r matches Err(e) && e is Decode,
            },
            None => r matches Err(e) && e is Decode,
        },
{
    let first = match take_first_reply(replies) {
        Ok(f) => f,
        Err(e) => {
            return Err(e);
        },
    };
    match first.result {
        Some(v) => match dx_channels(&v) {
            Some(p) => Ok(p),
            None => Err(ClientError::Decode),
        },
        None => Err(ClientError::Decode),
    }
}

/// The info result carried by the first reply of a one-command batch.
pub fn info_from_replies(replies: Vec<Reply>) -> (r: Result<InfoResult, ClientError>)
    ensures
        replies@.len() == 0 ==> (r matches Err(e) && e is NoReply),
        replies@.len() > 0 && replies@[0].error is Some ==> (r matches Err(ClientError::Remote(e))
            && e == replies@[0].error->0),
        replies@.len() > 0 && replies@[0].error is None ==> match replies@[0].result {
            Some(v) => match sd_info(v@) {
                Some(p) => r is Ok && r->Ok_0.deep_view() == p,
                None => r matches Err(e) && e is Decode,
            },
            None => r matches Err(e) && e is Decode,
        },
{
    let first = match take_first_reply(replies) {
        Ok(f) => f,
        Err(e) => {
            return Err(e);
        },
    };
    match first.result {
        Some(v) => match dx_info(&v) {
            Some(p) => Ok(p),
            None => Err(ClientError::Decode),
        },
        None => Err(ClientError::Decode),
    }
}

/// The acknowledgement of a fire-and-forget command: success exactly when
/// one reply came back without a server-reported error.
pub fn ack_from_replies(replies: Vec<Reply>) -> (r: Result<(), ClientError>)
    ensures
        replies@.len() == 0 ==> (r matches Err(e) && e is NoReply),
        replies@.len() > 0 && replies@[0].error is Some ==> (r matches Err(ClientError::Remote(e))
            && e == replies@[0].error->0),
        replies@.len() > 0 && replies@[0].error is None ==> r is Ok,
{
    match take_first_reply(replies) {
        Ok(_) => Ok(()),
        Err(e) => Err(e),
    }
}

proof fn lemma_nl_dist_of_free_prefix(s: Seq<char>, i: int)
    requires
        0 <= i <= s.len(),
        forall|j: int| i <= j < s.len() ==> s[j] != '\n',
    ensures
        nl_dist(s, i) == s.len() - i,
    decreases s.len() - i,
{
    if i < s.len() {
        lemma_nl_dist_of_free_prefix(s, i + 1);
    }
}

proof fn lemma_nl_dist_stops_at(s: Seq<char>, i: int, k: int)
    requires
        0 <= i <= k < s.len(),
        forall|j: int| i <= j < k ==> s[j] != '\n',
        s[k] == '\n',
    ensures
        i + nl_dist(s, i) == k,
    decreases k - i,
{
    if i < k {
        lemma_nl_dist_stops_at(s, i + 1, k);
    }
}

proof fn lemma_lines_from_shift(s: Seq<char>, i: int)
    requires
        0 <= i <= s.len(),
    ensures
        lines_from(s, i) == lines_from(s.subrange(i, s.len() as int), 0),
    decreases s.len() - i,
{
    let t = s.subrange(i, s.len() as int);
    assert(forall|j: int| 0 <= j < t.len() ==> t[j] == s[i + j]);
    assert forall|j: int| i <= j < s.len() && s[j] == '\n' implies t[j - i] == '\n' by {}
    let k = i + nl_dist(s, i);
    lemma_nl_dist_props(s, i);
    lemma_nl_dist_props(t, 0);
    if k >= s.len() {
        assert(forall|j: int| i <= j < s.len() ==> s[j] != '\n') by {
            lemma_nl_free_below_dist(s, i);
        }
        lemma_nl_dist_of_free_prefix(t, 0);
        assert(t.subrange(0, t.len() as int) =~= s.subrange(i, s.len() as int));
    } else {
        assert(s[k] == '\n');
        assert(forall|j: int| i <= j < k ==> s[j] != '\n') by {
            lemma_nl_free_below_dist(s, i);
        }
        assert(t[k - i] == '\n');
        assert(forall|j: int| 0 <= j < k - i ==> t[j] != '\n');
        lemma_nl_dist_stops_at(t, 0, k - i);
        assert(t.subrange(0, k - i) =~= s.subrange(i, k));
        lemma_lines_from_shift(s, k + 1);
        assert(t.subrange(k - i + 1, t.len() as int) =~= s.subrange(k + 1, s.len() as int));
        assert(lines_from(t, k - i + 1) == lines_from(
            t.subrange(k - i + 1, t.len() as int),
            0,
        )) by {
            lemma_lines_from_shift(t, k - i + 1);
        }
    }
}

proof fn lemma_nl_free_below_dist(s: Seq<char>, i: int)
    requires
        0 <= i <= s.len(),
    ensures
        forall|j: int| i <= j < i + nl_dist(s, i) ==> s[j] != '\n',
    decreases s.len() - i,
{
    if i < s.len() && s[i] != '\n' {
        lemma_nl_free_below_dist(s, i + 1);
    }
}

proof fn lemma_lines_of_joined(a: Seq<char>, b: Seq<char>)
    requires
        forall|j: int| 0 <= j < a.len() ==> a[j] != '\n',
        a.len() > 0,
        a[a.len() - 1] != '\r',
    ensures
        lines_from(a + seq!['\n'] + b, 0) == seq![a] + lines_from(b, 0),
{
    let s = a + seq!['\n'] + b;
    assert(s.len() == a.len() + 1 + b.len());
    assert(forall|j: int| 0 <= j < a.len() ==> s[j] == a[j]);
    assert(s[a.len() as int] == '\n');
    lemma_nl_dist_stops_at(s, 0, a.len() as int);
    assert(s.subrange(0, a.len() as int) =~= a);
    assert(strip_cr(a) == a);
    lemma_lines_from_shift(s, a.len() as int + 1);
    assert(s.subrange(a.len() as int + 1, s.len() as int) =~= b);
}

/// Law: the request body carries the batch's commands in append order, one
/// line per command: splitting the body at newlines yields exactly the
/// commands' serializations. The hypothesis says each serialized command is
/// newline-free, which holds of every command whose number tokens hold no
/// newline, since the serializer escapes newlines inside strings.
pub proof fn lemma_request_lines(cs: Seq<Command>)
    requires
        cs.len() > 0,
        forall|i: int| 0 <= i < cs.len() ==> !(#[trigger] ser_command(cs[i])).contains('\n'),
        forall|i: int|
            0 <= i < cs.len() ==> ser_command(cs[i]).len() > 0 && ser_command(
                cs[i],
            ).last() != '\r',
    ensures
        lines_from(ndjson(cs), 0) == Seq::new(cs.len(), |i: int| ser_command(cs[i])),
    decreases cs.len(),
{
    if cs.len() == 1 {
        let a = ser_command(cs[0]);
        assert(ndjson(cs) == a);
        assert(forall|j: int| 0 <= j < a.len() ==> a[j] != '\n') by {
            assert(forall|j: int| 0 <= j < a.len() ==> a.contains(a[j]));
        }
        lemma_nl_dist_of_free_prefix(a, 0);
        assert(a.subrange(0, a.len() as int) =~= a);
        assert(strip_cr(a) == a);
        assert(lines_from(a, 0) =~= seq![a]);
        assert(Seq::new(cs.len(), |i: int| ser_command(cs[i])) =~= seq![a]);
    } else {
        let head = cs[0];
        let rest = cs.subrange(1, cs.len() as int);
        lemma_ndjson_head(cs);
        let a = ser_command(head);
        assert(forall|j: int| 0 <= j < a.len() ==> a[j] != '\n') by {
            assert(a == ser_command(cs[0]));
            assert(forall|j: int| 0 <= j < a.len() ==> a.contains(a[j]));
        }
        lemma_lines_of_joined(a, ndjson(rest));
        assert(forall|i: int| 0 <= i < rest.len() ==> rest[i] == cs[i + 1]);
        lemma_request_lines(rest);
        assert(lines_from(ndjson(cs), 0) =~= Seq::new(cs.len(), |i: int| ser_command(cs[i])));
    }
}

/// The request body of a non-singleton batch starts with its first
/// command's line.
proof fn lemma_ndjson_head(cs: Seq<Command>)
    requires
        cs.len() >= 2,
    ensures
        ndjson(cs) == ser_command(cs[0]) + seq!['\n'] + ndjson(cs.subrange(1, cs.len() as int)),
    decreases cs.len(),
{
    let rest = cs.subrange(1, cs.len() as int);
    if cs.len() == 2 {
        assert(cs.subrange(0, 1) =~= seq![cs[0]]);
        assert(ndjson(cs.subrange(0, 1)) == ser_command(cs[0]));
        assert(rest =~= seq![cs[1]]);
        assert(ndjson(rest) == ser_command(cs[1]));
        assert(ndjson(cs) =~= ser_command(cs[0]) + seq!['\n'] + ndjson(rest));
    } else {
        let butlast = cs.subrange(0, cs.len() - 1);
        lemma_ndjson_head(butlast);
        assert(butlast.subrange(1, butlast.len() as int) =~= rest.subrange(0, rest.len() - 1));
        assert(butlast[0] == cs[0]);
        assert(rest[rest.len() - 1] == cs[cs.len() - 1]);
        assert(ndjson(cs) == ndjson(butlast) + seq!['\n'] + ser_command(cs[cs.len() - 1]));
        assert(ndjson(rest) == ndjson(rest.subrange(0, rest.len() - 1)) + seq!['\n']
            + ser_command(rest[rest.len() - 1]));
        assert(ndjson(cs) =~= ser_command(cs[0]) + seq!['\n'] + ndjson(rest));
    }
}

/// Law: a command whose parameters are a one-line value (see [`one_line`])
/// takes exactly one newline-free line on the wire, ending in its closing
/// brace. Number tokens built by the batch are decimal digits, and string
/// contents are escaped, so this covers every command the batch builds from
/// one-line payload data.
pub proof fn lemma_command_one_line(c: Command)
    requires
        one_line(params_json(c.params)),
    ensures
        !ser_command(c).contains('\n'),
        ser_command(c).len() > 0,
        ser_command(c).last() != '\r',
{
    let ms = command_json(c)->Obj_0;
    assert(one_line_members(ms)) by {
        assert(ms.len() == 2);
        assert(one_line(ms[0].1));
        let tail = ms.subrange(1, 2);
        assert(tail.len() == 1);
        assert(tail[0] == ms[1]);
        assert(one_line(tail[0].1));
        let tail2 = tail.subrange(1, 1);
        assert(tail2 =~= Seq::<(Seq<char>, JsonV)>::empty());
        assert(one_line_members(tail2));
        assert(one_line_members(tail));
    }
    lemma_ser_one_line(command_json(c));
    let w = ser_command(c);
    assert(w == seq!['{'] + crate::json::ser_members(ms) + seq!['}']);
    assert(w.last() == '}');
    if w.contains('\n') {
        let k = choose|k: int| 0 <= k < w.len() && w[k] == '\n';
        assert(no_nl(w));
        assert(false);
    }
}

/// Law: the request body of a batch of one-line commands splits back into
/// exactly the commands' lines, in append order.
pub proof fn lemma_request_lines_of_batch(cs: Seq<Command>)
    requires
        cs.len() > 0,
        forall|i: int| 0 <= i < cs.len() ==> one_line(params_json((#[trigger] cs[i]).params)),
    ensures
        lines_from(ndjson(cs), 0) == Seq::new(cs.len(), |i: int| ser_command(cs[i])),
{
    assert forall|i: int| 0 <= i < cs.len() implies !(#[trigger] ser_command(cs[i])).contains(
        '\n',
    ) && ser_command(cs[i]).len() > 0 && ser_command(cs[i]).last() != '\r' by {
        lemma_command_one_line(cs[i]);
    }
    lemma_request_lines(cs);
}

} // verus!
