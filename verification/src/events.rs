//! Event keys, payloads, handler outcomes and the notifications the plugin
//! sends back to the host.

use vstd::prelude::*;

verus! {

use crate::position::Position;

/// Coarse event namespace.
#[derive(Clone, Copy, Debug, PartialEq, Eq, Structural)]
pub enum EventCategory {
    Core,
    Client,
    Plugin,
}

/// The mathematical value of an event key: category, topic, optional
/// sub-topic.
pub type KeyV = (EventCategory, Seq<char>, Option<Seq<char>>);

/// An event key: handlers are registered against one key, and published
/// events are routed by key.
#[derive(Clone, Debug)]
pub struct EventKey {
    pub category: EventCategory,
    pub topic: String,
    pub subtopic: Option<String>,
}

impl View for EventKey {
    type V = KeyV;

    open spec fn view(&self) -> KeyV {
        (
            self.category,
            self.topic@,
            match self.subtopic {
                Some(s) => Some(s@),
                None => None,
            },
        )
    }
}

impl EventKey {
    /// A key in the core namespace, with a topic only.
    pub fn core_key(topic: &str) -> (r: EventKey)
        ensures
            r@ == (EventCategory::Core, topic@, None::<Seq<char>>),
    {
        EventKey { category: EventCategory::Core, topic: topic.to_owned(), subtopic: None }
    }

    /// A key in the client namespace, with a topic and a sub-topic.
    pub fn client_key(topic: &str, subtopic: &str) -> (r: EventKey)
        ensures
            r@ == (EventCategory::Client, topic@, Some(subtopic@)),
    {
        EventKey {
            category: EventCategory::Client,
            topic: topic.to_owned(),
            subtopic: Some(subtopic.to_owned()),
        }
    }

    /// A key in the plugin-to-plugin namespace: the emitting plugin and its
    /// event name.
    pub fn plugin_key(plugin: &str, event: &str) -> (r: EventKey)
        ensures
            r@ == (EventCategory::Plugin, plugin@, Some(event@)),
    {
        EventKey {
            category: EventCategory::Plugin,
            topic: plugin.to_owned(),
            subtopic: Some(event.to_owned()),
        }
    }

    /// Whether this key and `other` denote the same key.
    pub fn key_eq(&self, other: &EventKey) -> (r: bool)
        ensures
            r == (self@ == other@),
    {
        let cat_eq = self.category == other.category;
        let topic_eq = self.topic == other.topic;
        let sub_eq = match (&self.subtopic, &other.subtopic) {
            (Some(a), Some(b)) => *a == *b,
            (None, None) => true,
            _ => false,
        };
        cat_eq && topic_eq && sub_eq
    }
}

/// A chat message sent by a player.
#[derive(Clone, Debug)]
pub struct PlayerChatEvent {
    pub player_id: u64,
    pub message: String,
    pub channel: String,
    pub timestamp: u64,
}

/// A jump performed by a player.
#[derive(Clone, Copy, Debug)]
pub struct PlayerJumpEvent {
    pub player_id: u64,
    pub height: i64,
    pub position: Position,
    pub timestamp: u64,
}

/// A movement of a player from one position to another.
#[derive(Clone, Copy, Debug)]
pub struct PlayerMoveEvent {
    pub player_id: u64,
    pub from_position: Position,
    pub to_position: Position,
    pub speed: i64,
}

/// A welcome announcement for a newly connected player.
#[derive(Clone, Debug)]
pub struct PlayerWelcomedEvent {
    pub player_id: u64,
    pub welcome_message: String,
    pub timestamp: u64,
}

/// A snapshot of one player's statistics.
#[derive(Clone, Copy, Debug, PartialEq, Eq, Structural)]
pub struct PlayerStatsEvent {
    pub player_id: u64,
    pub messages_sent: u32,
    pub jumps_performed: u32,
    pub time_online: u64,
}

/// The payload carried by a published event: one variant per typed event the
/// plugin understands, and raw JSON for open-ended messages.
pub enum EventPayload {
    Connect { player_id: u64 },
    Disconnect { player_id: u64 },
    Chat(PlayerChatEvent),
    Move(PlayerMoveEvent),
    Jump(PlayerJumpEvent),
    Json(serde_json::Value),
}

/// Why one handler's run failed; local to that handler.
#[derive(Clone, Copy, Debug, PartialEq, Eq, Structural)]
pub enum HandlerError {
    /// The payload did not match the shape the handler expects.
    Deserialization,
}

/// A side effect a handler asks the host to perform; the host logs or
/// forwards it.
#[derive(Clone, Copy, Debug, PartialEq, Eq, Structural)]
pub enum HandlerAction {
    /// A record was initialized for a newly connected player.
    PlayerInitialized { player_id: u64 },
    /// A player disconnected after being online for `online_ms`.
    PlayerLeft { player_id: u64, online_ms: u64 },
    /// A player asked for its statistics.
    StatsRequested { player_id: u64 },
    /// A player greeted and notifications are enabled.
    GreetingDetected { player_id: u64 },
    /// A player jumped higher than the high-jump threshold.
    HighJump { player_id: u64 },
}

/// A failure surfaced to the host.
#[derive(Clone, Debug)]
pub enum PluginError {
    /// A payload did not match the expected shape.
    DeserializationError(String),
    /// Startup failed; the plugin must not be considered active.
    InitializationFailed(String),
    /// A shutdown step or a handler failed; reported, not fatal to the host.
    ExecutionError(String),
}

/// An outbound notification: the plugin announces itself or asks another
/// plugin for information.
#[derive(Clone, Debug)]
pub struct OutboundNotice {
    /// The plugin namespace the notice is emitted under.
    pub target: String,
    /// The event name within that namespace.
    pub topic: String,
    /// The plugin the notice originates from.
    pub plugin: String,
    /// A human-readable line describing the notice.
    pub message: String,
    pub timestamp: u64,
}

/// Aggregate statistics over one session, reported at shutdown.
#[derive(Clone, Copy, Debug, PartialEq, Eq, Structural)]
pub struct SessionStats {
    pub players_tracked: u64,
    pub total_messages: u64,
    pub total_jumps: u64,
}

} // verus!
