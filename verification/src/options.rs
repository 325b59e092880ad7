//! Per-method request options: each options struct starts at its documented
//! defaults and is configured by applying mutators; applying the same kind of
//! mutator twice is last-write-wins, while mutators of distinct fields
//! commute (both proved below).
use vstd::prelude::*;

use crate::json::Json;

verus! {

/// Options of the publish and broadcast commands.
#[derive(Debug, Clone)]
pub struct PublishOptions {
    pub skip_history: bool,
}

impl Default for PublishOptions {
    /// All options unset; the flag defaults to false.
    fn default() -> (r: Self)
        ensures
            r.skip_history == false,
    {
        PublishOptions { skip_history: false }
    }
}

/// One publish option mutator.
#[derive(Debug, Clone)]
pub enum PublishOption {
    SkipHistory(bool),
}

/// The effect of one publish option on an options value.
pub open spec fn apply_publish_option(o: PublishOptions, opt: PublishOption) -> PublishOptions {
    match opt {
        PublishOption::SkipHistory(b) => PublishOptions { skip_history: b },
    }
}

/// The effect of a whole list of publish options, applied in order.
pub open spec fn apply_publish_options(o: PublishOptions, opts: Seq<PublishOption>) -> PublishOptions
    decreases opts.len(),
{
    if opts.len() == 0 {
        o
    } else {
        apply_publish_options(apply_publish_option(o, opts[0]), opts.subrange(1, opts.len() as int))
    }
}

impl PublishOptions {
    /// Applies one mutator.
    pub fn apply(&mut self, opt: PublishOption)
        ensures
            *final(self) == apply_publish_option(*old(self), opt),
    {
        match opt {
            PublishOption::SkipHistory(b) => {
                self.skip_history = b;
            },
        }
    }

    /// The options value that a list of mutators configures, starting from
    /// the defaults.
    pub fn build(opts: Vec<PublishOption>) -> (r: PublishOptions)
        ensures
            r == apply_publish_options(PublishOptions { skip_history: false }, opts@),
    {
        let mut o = PublishOptions { skip_history: false };
        let mut rest = opts;
        while rest.len() > 0
            invariant
                apply_publish_options(PublishOptions { skip_history: false }, opts@)
                    == apply_publish_options(o, rest@),
            decreases rest.len(),
        {
            let ghost prev = rest@;
            let opt = rest.remove(0);
            proof {
                assert(prev.remove(0) =~= prev.subrange(1, prev.len() as int));
            }
            o.apply(opt);
        }
        o
    }
}

/// Allows to set the skip history flag of a publish.
pub fn with_skip_history(skip: bool) -> (r: PublishOption)
    ensures
        r == PublishOption::SkipHistory(skip),
{
    PublishOption::SkipHistory(skip)
}

/// A position inside a channel's publication stream.
#[derive(Debug, Clone)]
pub struct StreamPosition {
    pub offset: Option<u64>,
    pub epoch: Option<String>,
}

impl Default for StreamPosition {
    /// Both parts unset.
    fn default() -> (r: Self)
        ensures
            r.offset is None,
            r.epoch is None,
    {
        StreamPosition { offset: None, epoch: None }
    }
}

/// Per-subscription options of the subscribe command.
#[derive(Debug)]
pub struct SubscribeOptions {
    /// Custom channel information; unset means none.
    pub info: Option<Json>,
    /// Turns on participating in channel presence.
    pub presence: Option<bool>,
    /// Enables join and leave messages for this client in the channel.
    pub join_leave: Option<bool>,
    /// Makes the client sync its position inside the stream.
    pub position: Option<bool>,
    /// Turns on recovery of missed messages upon resubscribe.
    pub recover: Option<bool>,
    /// Data to send to the client with the subscribe push.
    pub data: Option<Json>,
    /// Recover from this stream position on subscribe.
    pub recover_since: Option<StreamPosition>,
    /// Client id to subscribe.
    pub client_id: Option<String>,
}

impl Default for SubscribeOptions {
    /// All options unset.
    fn default() -> (r: Self)
        ensures
            r.info is None,
            r.presence is None,
            r.join_leave is None,
            r.position is None,
            r.recover is None,
            r.data is None,
            r.recover_since is None,
            r.client_id is None,
    {
        SubscribeOptions {
            info: None,
            presence: None,
            join_leave: None,
            position: None,
            recover: None,
            data: None,
            recover_since: None,
            client_id: None,
        }
    }
}

/// One subscribe option mutator.
#[derive(Debug)]
pub enum SubscribeOption {
    Info(Json),
    Presence(bool),
    JoinLeave(bool),
    Position(bool),
    Recover(bool),
    Data(Json),
    RecoverSince(StreamPosition),
    Client(String),
}

/// The effect of one subscribe option.
pub open spec fn apply_subscribe_option(
    o: SubscribeOptions,
    opt: SubscribeOption,
) -> SubscribeOptions {
    match opt {
        SubscribeOption::Info(v) => SubscribeOptions { info: Some(v), ..o },
        SubscribeOption::Presence(b) => SubscribeOptions { presence: Some(b), ..o },
        SubscribeOption::JoinLeave(b) => SubscribeOptions { join_leave: Some(b), ..o },
        SubscribeOption::Position(b) => SubscribeOptions { position: Some(b), ..o },
        SubscribeOption::Recover(b) => SubscribeOptions { recover: Some(b), ..o },
        SubscribeOption::Data(v) => SubscribeOptions { data: Some(v), ..o },
        SubscribeOption::RecoverSince(p) => SubscribeOptions { recover_since: Some(p), ..o },
        SubscribeOption::Client(c) => SubscribeOptions { client_id: Some(c), ..o },
    }
}

/// The effect of a whole list of subscribe options, applied in order.
pub open spec fn apply_subscribe_options(
    o: SubscribeOptions,
    opts: Seq<SubscribeOption>,
) -> SubscribeOptions
    decreases opts.len(),
{
    if opts.len() == 0 {
        o
    } else {
        apply_subscribe_options(
            apply_subscribe_option(o, opts[0]),
            opts.subrange(1, opts.len() as int),
        )
    }
}

impl SubscribeOptions {
    /// Applies one mutator.
    pub fn apply(&mut self, opt: SubscribeOption)
        ensures
            *final(self) == apply_subscribe_option(*old(self), opt),
    {
        match opt {
            SubscribeOption::Info(v) => {
                self.info = Some(v);
            },
            SubscribeOption::Presence(b) => {
                self.presence = Some(b);
            },
            SubscribeOption::JoinLeave(b) => {
                self.join_leave = Some(b);
            },
            SubscribeOption::Position(b) => {
                self.position = Some(b);
            },
            SubscribeOption::Recover(b) => {
                self.recover = Some(b);
            },
            SubscribeOption::Data(v) => {
                self.data = Some(v);
            },
            SubscribeOption::RecoverSince(p) => {
                self.recover_since = Some(p);
            },
            SubscribeOption::Client(c) => {
                self.client_id = Some(c);
            },
        }
    }

    /// The options value that a list of mutators configures.
    pub fn build(opts: Vec<SubscribeOption>) -> (r: SubscribeOptions)
        ensures
            r == apply_subscribe_options(
                SubscribeOptions {
                    info: None,
                    presence: None,
                    join_leave: None,
                    position: None,
                    recover: None,
                    data: None,
                    recover_since: None,
                    client_id: None,
                },
                opts@,
            ),
    {
        let mut o = SubscribeOptions {
            info: None,
            presence: None,
            join_leave: None,
            position: None,
            recover: None,
            data: None,
            recover_since: None,
            client_id: None,
        };
        let mut rest = opts;
        while rest.len() > 0
            invariant
                apply_subscribe_options(
                    SubscribeOptions {
                        info: None,
                        presence: None,
                        join_leave: None,
                        position: None,
                        recover: None,
                        data: None,
                        recover_since: None,
                        client_id: None,
                    },
                    opts@,
                ) == apply_subscribe_options(o, rest@),
            decreases rest.len(),
        {
            let ghost prev = rest@;
            let opt = rest.remove(0);
            proof {
                assert(prev.remove(0) =~= prev.subrange(1, prev.len() as int));
            }
            o.apply(opt);
        }
        o
    }
}

/// Allows to set custom channel information for a subscription.
pub fn with_subscribe_info(chan_info: Json) -> (r: SubscribeOption)
    ensures
        r == SubscribeOption::Info(chan_info),
{
    SubscribeOption::Info(chan_info)
}

/// Allows to turn on presence for a subscription.
pub fn with_presence(enabled: bool) -> (r: SubscribeOption)
    ensures
        r == SubscribeOption::Presence(enabled),
{
    SubscribeOption::Presence(enabled)
}

/// Allows to turn on join and leave messages for a subscription.
pub fn with_join_leave(enabled: bool) -> (r: SubscribeOption)
    ensures
        r == SubscribeOption::JoinLeave(enabled),
{
    SubscribeOption::JoinLeave(enabled)
}

/// Allows to turn on position tracking for a subscription.
pub fn with_position(enabled: bool) -> (r: SubscribeOption)
    ensures
        r == SubscribeOption::Position(enabled),
{
    SubscribeOption::Position(enabled)
}

/// Allows to turn on recovery for a subscription.
pub fn with_recover(enabled: bool) -> (r: SubscribeOption)
    ensures
        r == SubscribeOption::Recover(enabled),
{
    SubscribeOption::Recover(enabled)
}

/// Allows to choose the client id to subscribe.
pub fn with_subscribe_client(client_id: String) -> (r: SubscribeOption)
    ensures
        r == SubscribeOption::Client(client_id),
{
    SubscribeOption::Client(client_id)
}

/// Allows to set the data sent with the subscribe push.
pub fn with_subscribe_data(data: Json) -> (r: SubscribeOption)
    ensures
        r == SubscribeOption::Data(data),
{
    SubscribeOption::Data(data)
}

/// Allows to subscribe starting from a stream position.
pub fn with_recover_since(since: StreamPosition) -> (r: SubscribeOption)
    ensures
        r == SubscribeOption::RecoverSince(since),
{
    SubscribeOption::RecoverSince(since)
}

/// Options of the unsubscribe command.
#[derive(Debug, Clone)]
pub struct UnsubscribeOptions {
    /// Client id to unsubscribe.
    pub client_id: Option<String>,
}

impl Default for UnsubscribeOptions {
    /// The client id unset.
    fn default() -> (r: Self)
        ensures
            r.client_id is None,
    {
        UnsubscribeOptions { client_id: None }
    }
}

/// One unsubscribe option mutator.
#[derive(Debug, Clone)]
pub enum UnsubscribeOption {
    Client(String),
}

/// The effect of one unsubscribe option.
pub open spec fn apply_unsubscribe_option(
    o: UnsubscribeOptions,
    opt: UnsubscribeOption,
) -> UnsubscribeOptions {
    match opt {
        UnsubscribeOption::Client(c) => UnsubscribeOptions { client_id: Some(c) },
    }
}

/// The effect of a whole list of unsubscribe options, applied in order.
pub open spec fn apply_unsubscribe_options(
    o: UnsubscribeOptions,
    opts: Seq<UnsubscribeOption>,
) -> UnsubscribeOptions
    decreases opts.len(),
{
    if opts.len() == 0 {
        o
    } else {
        apply_unsubscribe_options(
            apply_unsubscribe_option(o, opts[0]),
            opts.subrange(1, opts.len() as int),
        )
    }
}

impl UnsubscribeOptions {
    /// Applies one mutator.
    pub fn apply(&mut self, opt: UnsubscribeOption)
        ensures
            *final(self) == apply_unsubscribe_option(*old(self), opt),
    {
        match opt {
            UnsubscribeOption::Client(c) => {
                self.client_id = Some(c);
            },
        }
    }

    /// The options value that a list of mutators configures.
    pub fn build(opts: Vec<UnsubscribeOption>) -> (r: UnsubscribeOptions)
        ensures
            r == apply_unsubscribe_options(UnsubscribeOptions { client_id: None }, opts@),
    {
        let mut o = UnsubscribeOptions { client_id: None };
        let mut rest = opts;
        while rest.len() > 0
            invariant
                apply_unsubscribe_options(UnsubscribeOptions { client_id: None }, opts@)
                    == apply_unsubscribe_options(o, rest@),
            decreases rest.len(),
        {
            let ghost prev = rest@;
            let opt = rest.remove(0);
            proof {
                assert(prev.remove(0) =~= prev.subrange(1, prev.len() as int));
            }
            o.apply(opt);
        }
        o
    }
}

/// Allows to choose the client id to unsubscribe.
pub fn with_unsubscribe_client(client_id: String) -> (r: UnsubscribeOption)
    ensures
        r == UnsubscribeOption::Client(client_id),
{
    UnsubscribeOption::Client(client_id)
}

/// A custom disconnect push.
#[derive(Debug, Clone)]
pub struct Disconnect {
    pub code: Option<u32>,
    pub reason: Option<String>,
    pub reconnect: Option<bool>,
}

impl Default for Disconnect {
    /// All parts unset.
    fn default() -> (r: Self)
        ensures
            r.code is None,
            r.reason is None,
            r.reconnect is None,
    {
        Disconnect { code: None, reason: None, reconnect: None }
    }
}

/// Options of the disconnect command.
#[derive(Debug, Clone)]
pub struct DisconnectOptions {
    /// The disconnect push to send.
    pub disconnect: Option<Disconnect>,
    /// Client ids that stay connected.
    pub client_whitelist: Option<Vec<String>>,
    /// Client id to disconnect.
    pub client_id: Option<String>,
}

impl Default for DisconnectOptions {
    /// All options unset.
    fn default() -> (r: Self)
        ensures
            r.disconnect is None,
            r.client_whitelist is None,
            r.client_id is None,
    {
        DisconnectOptions { disconnect: None, client_whitelist: None, client_id: None }
    }
}

/// One disconnect option mutator.
#[derive(Debug, Clone)]
pub enum DisconnectOption {
    Disconnect(Disconnect),
    Client(String),
    ClientWhitelist(Vec<String>),
}

/// The effect of one disconnect option.
pub open spec fn apply_disconnect_option(
    o: DisconnectOptions,
    opt: DisconnectOption,
) -> DisconnectOptions {
    match opt {
        DisconnectOption::Disconnect(d) => DisconnectOptions { disconnect: Some(d), ..o },
        DisconnectOption::Client(c) => DisconnectOptions { client_id: Some(c), ..o },
        DisconnectOption::ClientWhitelist(w) => DisconnectOptions {
            client_whitelist: Some(w),
            ..o
        },
    }
}

/// The effect of a whole list of disconnect options, applied in order.
pub open spec fn apply_disconnect_options(
    o: DisconnectOptions,
    opts: Seq<DisconnectOption>,
) -> DisconnectOptions
    decreases opts.len(),
{
    if opts.len() == 0 {
        o
    } else {
        apply_disconnect_options(
            apply_disconnect_option(o, opts[0]),
            opts.subrange(1, opts.len() as int),
        )
    }
}

impl DisconnectOptions {
    /// Applies one mutator.
    pub fn apply(&mut self, opt: DisconnectOption)
        ensures
            *final(self) == apply_disconnect_option(*old(self), opt),
    {
        match opt {
            DisconnectOption::Disconnect(d) => {
                self.disconnect = Some(d);
            },
            DisconnectOption::Client(c) => {
                self.client_id = Some(c);
            },
            DisconnectOption::ClientWhitelist(w) => {
                self.client_whitelist = Some(w);
            },
        }
    }

    /// The options value that a list of mutators configures.
    pub fn build(opts: Vec<DisconnectOption>) -> (r: DisconnectOptions)
        ensures
            r == apply_disconnect_options(
                DisconnectOptions { disconnect: None, client_whitelist: None, client_id: None },
                opts@,
            ),
    {
        let mut o = DisconnectOptions { disconnect: None, client_whitelist: None, client_id: None };
        let mut rest = opts;
        while rest.len() > 0
            invariant
                apply_disconnect_options(
                    DisconnectOptions { disconnect: None, client_whitelist: None, client_id: None },
                    opts@,
                ) == apply_disconnect_options(o, rest@),
            decreases rest.len(),
        {
            let ghost prev = rest@;
            let opt = rest.remove(0);
            proof {
                assert(prev.remove(0) =~= prev.subrange(1, prev.len() as int));
            }
            o.apply(opt);
        }
        o
    }
}

/// Allows to set the disconnect push.
pub fn with_disconnect(disconnect: Disconnect) -> (r: DisconnectOption)
    ensures
        r == DisconnectOption::Disconnect(disconnect),
{
    DisconnectOption::Disconnect(disconnect)
}

/// Allows to choose the client id to disconnect.
pub fn with_disconnect_client(client_id: String) -> (r: DisconnectOption)
    ensures
        r == DisconnectOption::Client(client_id),
{
    DisconnectOption::Client(client_id)
}

/// Allows to name the client ids that stay connected.
pub fn with_disconnect_client_whitelist(whitelist: Vec<String>) -> (r: DisconnectOption)
    ensures
        r == DisconnectOption::ClientWhitelist(whitelist),
{
    DisconnectOption::ClientWhitelist(whitelist)
}

/// Options of the history command.
#[derive(Debug, Clone)]
pub struct HistoryOptions {
    pub since: Option<StreamPosition>,
    pub limit: Option<i32>,
    pub reverse: Option<bool>,
}

impl Default for HistoryOptions {
    /// All options unset.
    fn default() -> (r: Self)
        ensures
            r.since is None,
            r.limit is None,
            r.reverse is None,
    {
        HistoryOptions { since: None, limit: None, reverse: None }
    }
}

/// The limit value that asks for no limit.
pub const NO_LIMIT: i32 = -1;

/// One history option mutator.
#[derive(Debug, Clone)]
pub enum HistoryOption {
    Limit(i32),
    Since(StreamPosition),
    Reverse(bool),
}

/// The effect of one history option.
pub open spec fn apply_history_option(o: HistoryOptions, opt: HistoryOption) -> HistoryOptions {
    match opt {
        HistoryOption::Limit(l) => HistoryOptions { limit: Some(l), ..o },
        HistoryOption::Since(p) => HistoryOptions { since: Some(p), ..o },
        HistoryOption::Reverse(b) => HistoryOptions { reverse: Some(b), ..o },
    }
}

/// The effect of a whole list of history options, applied in order.
pub open spec fn apply_history_options(
    o: HistoryOptions,
    opts: Seq<HistoryOption>,
) -> HistoryOptions
    decreases opts.len(),
{
    if opts.len() == 0 {
        o
    } else {
        apply_history_options(apply_history_option(o, opts[0]), opts.subrange(1, opts.len() as int))
    }
}

impl HistoryOptions {
    /// Applies one mutator.
    pub fn apply(&mut self, opt: HistoryOption)
        ensures
            *final(self) == apply_history_option(*old(self), opt),
    {
        match opt {
            HistoryOption::Limit(l) => {
                self.limit = Some(l);
            },
            HistoryOption::Since(p) => {
                self.since = Some(p);
            },
            HistoryOption::Reverse(b) => {
                self.reverse = Some(b);
            },
        }
    }

    /// The options value that a list of mutators configures.
    pub fn build(opts: Vec<HistoryOption>) -> (r: HistoryOptions)
        ensures
            r == apply_history_options(
                HistoryOptions { since: None, limit: None, reverse: None },
                opts@,
            ),
    {
        let mut o = HistoryOptions { since: None, limit: None, reverse: None };
        let mut rest = opts;
        while rest.len() > 0
            invariant
                apply_history_options(
                    HistoryOptions { since: None, limit: None, reverse: None },
                    opts@,
                ) == apply_history_options(o, rest@),
            decreases rest.len(),
        {
            let ghost prev = rest@;
            let opt = rest.remove(0);
            proof {
                assert(prev.remove(0) =~= prev.subrange(1, prev.len() as int));
            }
            o.apply(opt);
        }
        o
    }
}

/// Allows to bound how many publications history returns.
pub fn with_limit(limit: i32) -> (r: HistoryOption)
    ensures
        r == HistoryOption::Limit(limit),
{
    HistoryOption::Limit(limit)
}

/// Allows to read history since a stream position.
pub fn with_since(since: StreamPosition) -> (r: HistoryOption)
    ensures
        r == HistoryOption::Since(since),
{
    HistoryOption::Since(since)
}

/// Allows to read history in reverse order.
pub fn with_reverse(reverse: bool) -> (r: HistoryOption)
    ensures
        r == HistoryOption::Reverse(reverse),
{
    HistoryOption::Reverse(reverse)
}

/// Options of the channels command.
#[derive(Debug, Clone)]
pub struct ChannelsOptions {
    pub pattern: Option<String>,
}

impl Default for ChannelsOptions {
    /// The pattern unset.
    fn default() -> (r: Self)
        ensures
            r.pattern is None,
    {
        ChannelsOptions { pattern: None }
    }
}

/// One channels option mutator.
#[derive(Debug, Clone)]
pub enum ChannelsOption {
    Pattern(String),
}

/// The effect of one channels option.
pub open spec fn apply_channels_option(o: ChannelsOptions, opt: ChannelsOption) -> ChannelsOptions {
    match opt {
        ChannelsOption::Pattern(p) => ChannelsOptions { pattern: Some(p) },
    }
}

/// The effect of a whole list of channels options, applied in order.
pub open spec fn apply_channels_options(
    o: ChannelsOptions,
    opts: Seq<ChannelsOption>,
) -> ChannelsOptions
    decreases opts.len(),
{
    if opts.len() == 0 {
        o
    } else {
        apply_channels_options(
            apply_channels_option(o, opts[0]),
            opts.subrange(1, opts.len() as int),
        )
    }
}

impl ChannelsOptions {
    /// Applies one mutator.
    pub fn apply(&mut self, opt: ChannelsOption)
        ensures
            *final(self) == apply_channels_option(*old(self), opt),
    {
        match opt {
            ChannelsOption::Pattern(p) => {
                self.pattern = Some(p);
            },
        }
    }

    /// The options value that a list of mutators configures.
    pub fn build(opts: Vec<ChannelsOption>) -> (r: ChannelsOptions)
        ensures
            r == apply_channels_options(ChannelsOptions { pattern: None }, opts@),
    {
        let mut o = ChannelsOptions { pattern: None };
        let mut rest = opts;
        while rest.len() > 0
            invariant
                apply_channels_options(ChannelsOptions { pattern: None }, opts@)
                    == apply_channels_options(o, rest@),
            decreases rest.len(),
        {
            let ghost prev = rest@;
            let opt = rest.remove(0);
            proof {
                assert(prev.remove(0) =~= prev.subrange(1, prev.len() as int));
            }
            o.apply(opt);
        }
        o
    }
}

/// Allows to restrict the channels command to names matching a pattern.
pub fn with_pattern(pattern: String) -> (r: ChannelsOption)
    ensures
        r == ChannelsOption::Pattern(pattern),
{
    ChannelsOption::Pattern(pattern)
}

/// Whether two history mutators touch the same field.
pub open spec fn same_history_field(a: HistoryOption, b: HistoryOption) -> bool {
    match (a, b) {
        (HistoryOption::Limit(_), HistoryOption::Limit(_)) => true,
        (HistoryOption::Since(_), HistoryOption::Since(_)) => true,
        (HistoryOption::Reverse(_), HistoryOption::Reverse(_)) => true,
        _ => false,
    }
}

/// Law: history mutators of distinct fields commute.
pub proof fn lemma_history_options_commute(o: HistoryOptions, a: HistoryOption, b: HistoryOption)
    requires
        !same_history_field(a, b),
    ensures
        apply_history_option(apply_history_option(o, a), b) == apply_history_option(
            apply_history_option(o, b),
            a,
        ),
{
}

/// Law: two history mutators of the same field are last-write-wins.
pub proof fn lemma_history_options_last_write_wins(
    o: HistoryOptions,
    a: HistoryOption,
    b: HistoryOption,
)
    requires
        same_history_field(a, b),
    ensures
        apply_history_option(apply_history_option(o, a), b) == apply_history_option(o, b),
{
}

/// Whether two subscribe mutators touch the same field.
pub open spec fn same_subscribe_field(a: SubscribeOption, b: SubscribeOption) -> bool {
    match (a, b) {
        (SubscribeOption::Info(_), SubscribeOption::Info(_)) => true,
        (SubscribeOption::Presence(_), SubscribeOption::Presence(_)) => true,
        (SubscribeOption::JoinLeave(_), SubscribeOption::JoinLeave(_)) => true,
        (SubscribeOption::Position(_), SubscribeOption::Position(_)) => true,
        (SubscribeOption::Recover(_), SubscribeOption::Recover(_)) => true,
        (SubscribeOption::Data(_), SubscribeOption::Data(_)) => true,
        (SubscribeOption::RecoverSince(_), SubscribeOption::RecoverSince(_)) => true,
        (SubscribeOption::Client(_), SubscribeOption::Client(_)) => true,
        _ => false,
    }
}

/// Law: subscribe mutators of distinct fields commute.
pub proof fn lemma_subscribe_options_commute(
    o: SubscribeOptions,
    a: SubscribeOption,
    b: SubscribeOption,
)
    requires
        !same_subscribe_field(a, b),
    ensures
        apply_subscribe_option(apply_subscribe_option(o, a), b) == apply_subscribe_option(
            apply_subscribe_option(o, b),
            a,
        ),
{
}

/// Law: two subscribe mutators of the same field are last-write-wins.
pub proof fn lemma_subscribe_options_last_write_wins(
    o: SubscribeOptions,
    a: SubscribeOption,
    b: SubscribeOption,
)
    requires
        same_subscribe_field(a, b),
    ensures
        apply_subscribe_option(apply_subscribe_option(o, a), b) == apply_subscribe_option(o, b),
{
}

/// Whether two disconnect mutators touch the same field.
pub open spec fn same_disconnect_field(a: DisconnectOption, b: DisconnectOption) -> bool {
    match (a, b) {
        (DisconnectOption::Disconnect(_), DisconnectOption::Disconnect(_)) => true,
        (DisconnectOption::Client(_), DisconnectOption::Client(_)) => true,
        (DisconnectOption::ClientWhitelist(_), DisconnectOption::ClientWhitelist(_)) => true,
        _ => false,
    }
}

/// Law: disconnect mutators of distinct fields commute.
pub proof fn lemma_disconnect_options_commute(
    o: DisconnectOptions,
    a: DisconnectOption,
    b: DisconnectOption,
)
    requires
        !same_disconnect_field(a, b),
    ensures
        apply_disconnect_option(apply_disconnect_option(o, a), b) == apply_disconnect_option(
            apply_disconnect_option(o, b),
            a,
        ),
{
}

/// Law: two disconnect mutators of the same field are last-write-wins.
pub proof fn lemma_disconnect_options_last_write_wins(
    o: DisconnectOptions,
    a: DisconnectOption,
    b: DisconnectOption,
)
    requires
        same_disconnect_field(a, b),
    ensures
        apply_disconnect_option(apply_disconnect_option(o, a), b) == apply_disconnect_option(o, b),
{
}

/// Law: any two publish mutators are last-write-wins (there is one field).
pub proof fn lemma_publish_options_last_write_wins(
    o: PublishOptions,
    a: PublishOption,
    b: PublishOption,
)
    ensures
        apply_publish_option(apply_publish_option(o, a), b) == apply_publish_option(o, b),
{
}

/// Law: any two unsubscribe mutators are last-write-wins.
pub proof fn lemma_unsubscribe_options_last_write_wins(
    o: UnsubscribeOptions,
    a: UnsubscribeOption,
    b: UnsubscribeOption,
)
    ensures
        apply_unsubscribe_option(apply_unsubscribe_option(o, a), b) == apply_unsubscribe_option(
            o,
            b,
        ),
{
}

/// Law: any two channels mutators are last-write-wins.
pub proof fn lemma_channels_options_last_write_wins(
    o: ChannelsOptions,
    a: ChannelsOption,
    b: ChannelsOption,
)
    ensures
        apply_channels_option(apply_channels_option(o, a), b) == apply_channels_option(o, b),
{
}

} // verus!
