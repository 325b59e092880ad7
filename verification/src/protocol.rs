//! Reply-side data model: the per-command reply envelope and the typed
//! results that the reply decoders produce.
use vstd::prelude::*;

use crate::json::Json;
use crate::json::JsonV;

verus! {

/// Server-reported error for one command.
#[derive(Debug, Clone)]
pub struct Error {
    pub code: u16,
    pub message: String,
}

/// Mathematical view of [`Error`].
pub struct ErrorV {
    pub code: u16,
    pub message: Seq<char>,
}

impl DeepView for Error {
    type V = ErrorV;

    open spec fn deep_view(&self) -> ErrorV {
        ErrorV { code: self.code, message: self.message@ }
    }
}

/// One reply to one command; replies arrive at the same position as the
/// commands they answer.
#[derive(Debug)]
pub struct Reply {
    pub error: Option<Error>,
    pub result: Option<Json>,
}

/// Mathematical view of [`Reply`].
pub struct ReplyV {
    pub error: Option<ErrorV>,
    pub result: Option<JsonV>,
}

impl DeepView for Reply {
    type V = ReplyV;

    open spec fn deep_view(&self) -> ReplyV {
        ReplyV { error: self.error.deep_view(), result: self.result.deep_view() }
    }
}

/// Information about one client connection, as found in presence data.
#[derive(Debug)]
pub struct ClientInfo {
    pub user: String,
    pub client: String,
    pub conn_info: Option<Json>,
    pub chan_info: Option<Json>,
}

/// Mathematical view of [`ClientInfo`].
pub struct ClientInfoV {
    pub user: Seq<char>,
    pub client: Seq<char>,
    pub conn_info: Option<JsonV>,
    pub chan_info: Option<JsonV>,
}

impl DeepView for ClientInfo {
    type V = ClientInfoV;

    open spec fn deep_view(&self) -> ClientInfoV {
        ClientInfoV {
            user: self.user@,
            client: self.client@,
            conn_info: self.conn_info.deep_view(),
            chan_info: self.chan_info.deep_view(),
        }
    }
}

/// One message published into a channel.
#[derive(Debug)]
pub struct Publication {
    pub offset: u16,
    pub data: Json,
    pub info: Option<ClientInfo>,
}

/// Mathematical view of [`Publication`].
pub struct PublicationV {
    pub offset: u16,
    pub data: JsonV,
    pub info: Option<ClientInfoV>,
}

impl DeepView for Publication {
    type V = PublicationV;

    open spec fn deep_view(&self) -> PublicationV {
        PublicationV {
            offset: self.offset,
            data: self.data.deep_view(),
            info: self.info.deep_view(),
        }
    }
}

/// Information and statistics about one server node.
#[derive(Debug)]
pub struct NodeInfo {
    /// Unique id of the running node.
    pub uid: String,
    /// Name of the node (configured or generated).
    pub name: String,
    /// Server version of the node.
    pub version: String,
    /// Number of clients connected to the node.
    pub num_clients: u16,
    /// Number of unique users connected to the node.
    pub num_users: u16,
    /// Number of channels on the node.
    pub num_channels: u16,
    /// Uptime of the node in seconds.
    pub uptime: u16,
}

/// Mathematical view of [`NodeInfo`].
pub struct NodeInfoV {
    pub uid: Seq<char>,
    pub name: Seq<char>,
    pub version: Seq<char>,
    pub num_clients: u16,
    pub num_users: u16,
    pub num_channels: u16,
    pub uptime: u16,
}

impl DeepView for NodeInfo {
    type V = NodeInfoV;

    open spec fn deep_view(&self) -> NodeInfoV {
        NodeInfoV {
            uid: self.uid@,
            name: self.name@,
            version: self.version@,
            num_clients: self.num_clients,
            num_users: self.num_users,
            num_channels: self.num_channels,
            uptime: self.uptime,
        }
    }
}

/// Result of the info command.
#[derive(Debug)]
pub struct InfoResult {
    pub nodes: Vec<NodeInfo>,
}

/// Mathematical view of [`InfoResult`].
pub struct InfoResultV {
    pub nodes: Seq<NodeInfoV>,
}

impl DeepView for InfoResult {
    type V = InfoResultV;

    open spec fn deep_view(&self) -> InfoResultV {
        InfoResultV { nodes: self.nodes.deep_view() }
    }
}

/// Result of the publish command.
#[derive(Debug)]
pub struct PublishResult {
    pub offset: Option<u16>,
    pub epoch: Option<String>,
}

/// Mathematical view of [`PublishResult`].
pub struct PublishResultV {
    pub offset: Option<u16>,
    pub epoch: Option<Seq<char>>,
}

impl DeepView for PublishResult {
    type V = PublishResultV;

    open spec fn deep_view(&self) -> PublishResultV {
        PublishResultV { offset: self.offset, epoch: self.epoch.deep_view() }
    }
}

/// One per-channel response inside a broadcast result.
#[derive(Debug)]
pub struct PublishResponse {
    pub error: Option<Error>,
    pub result: PublishResult,
}

/// Mathematical view of [`PublishResponse`].
pub struct PublishResponseV {
    pub error: Option<ErrorV>,
    pub result: PublishResultV,
}

impl DeepView for PublishResponse {
    type V = PublishResponseV;

    open spec fn deep_view(&self) -> PublishResponseV {
        PublishResponseV { error: self.error.deep_view(), result: self.result.deep_view() }
    }
}

/// Result of the broadcast command.
#[derive(Debug)]
pub struct BroadcastResult {
    pub responses: Vec<PublishResponse>,
}

/// Mathematical view of [`BroadcastResult`].
pub struct BroadcastResultV {
    pub responses: Seq<PublishResponseV>,
}

impl DeepView for BroadcastResult {
    type V = BroadcastResultV;

    open spec fn deep_view(&self) -> BroadcastResultV {
        BroadcastResultV { responses: self.responses.deep_view() }
    }
}

/// Result of the presence command: client id mapped to client information,
/// in the order the server listed them.
#[derive(Debug)]
pub struct PresenceResult {
    pub presence: Vec<(String, ClientInfo)>,
}

/// Mathematical view of [`PresenceResult`].
pub struct PresenceResultV {
    pub presence: Seq<(Seq<char>, ClientInfoV)>,
}

impl DeepView for PresenceResult {
    type V = PresenceResultV;

    open spec fn deep_view(&self) -> PresenceResultV {
        PresenceResultV { presence: self.presence.deep_view() }
    }
}

/// Result of the presence stats command.
#[derive(Debug)]
pub struct PresenceStatsResult {
    pub num_users: u16,
    pub num_clients: u16,
}

/// Mathematical view of [`PresenceStatsResult`].
pub struct PresenceStatsResultV {
    pub num_users: u16,
    pub num_clients: u16,
}

impl DeepView for PresenceStatsResult {
    type V = PresenceStatsResultV;

    open spec fn deep_view(&self) -> PresenceStatsResultV {
        PresenceStatsResultV { num_users: self.num_users, num_clients: self.num_clients }
    }
}

/// Result of the history command.
#[derive(Debug)]
pub struct HistoryResult {
    pub publication: Vec<Publication>,
    pub offset: u16,
    pub epoch: String,
}

/// Mathematical view of [`HistoryResult`].
pub struct HistoryResultV {
    pub publication: Seq<PublicationV>,
    pub offset: u16,
    pub epoch: Seq<char>,
}

impl DeepView for HistoryResult {
    type V = HistoryResultV;

    open spec fn deep_view(&self) -> HistoryResultV {
        HistoryResultV {
            publication: self.publication.deep_view(),
            offset: self.offset,
            epoch: self.epoch@,
        }
    }
}

/// Per-channel counters in a channels result.
#[derive(Debug)]
pub struct ChannelInfo {
    pub num_clients: u16,
}

/// Mathematical view of [`ChannelInfo`].
pub struct ChannelInfoV {
    pub num_clients: u16,
}

impl DeepView for ChannelInfo {
    type V = ChannelInfoV;

    open spec fn deep_view(&self) -> ChannelInfoV {
        ChannelInfoV { num_clients: self.num_clients }
    }
}

/// Result of the channels command: channel name mapped to its counters, in
/// the order the server listed them.
#[derive(Debug)]
pub struct ChannelsResult {
    pub channels: Vec<(String, ChannelInfo)>,
}

/// Mathematical view of [`ChannelsResult`].
pub struct ChannelsResultV {
    pub channels: Seq<(Seq<char>, ChannelInfoV)>,
}

impl DeepView for ChannelsResult {
    type V = ChannelsResultV;

    open spec fn deep_view(&self) -> ChannelsResultV {
        ChannelsResultV { channels: self.channels.deep_view() }
    }
}

} // verus!
