//! The sample plugin: its configuration, its handler registrations, and the
//! lifecycle computations behind its startup and shutdown announcements.

use vstd::prelude::*;

verus! {

use vstd::string::StringExecFns;

use crate::bus::EventBus;
use crate::bus::HandlerKind;
use crate::bus::dispatch_store;
use crate::bus::lemma_dispatch_singleton;
use crate::bus::sat_sub;
use crate::events::EventPayload;
use crate::events::EventCategory;
use crate::events::EventKey;
use crate::events::KeyV;
use crate::events::OutboundNotice;
use crate::events::PlayerStatsEvent;
use crate::events::PluginError;
use crate::events::SessionStats;
use crate::store::PlayerData;
use crate::store::StateStore;
use crate::store::sum_jumps;
use crate::store::sum_messages;

/// Configuration for the plugin.
#[derive(Clone, Debug)]
pub struct PluginConfig {
    pub welcome_message: String,
    pub max_players_tracked: usize,
    pub enable_notifications: bool,
}

impl Default for PluginConfig {
    /// The stock configuration: a welcome line, room for a hundred players,
    /// notifications on.
    fn default() -> (r: PluginConfig)
        ensures
            r.welcome_message@ == "Welcome to the server!"@,
            r.max_players_tracked == 100,
            r.enable_notifications,
    {
        PluginConfig {
            welcome_message: "Welcome to the server!".to_owned(),
            max_players_tracked: 100,
            enable_notifications: true,
        }
    }
}

/// The key the connect handler is registered under.
pub open spec fn connect_key() -> KeyV {
    (EventCategory::Core, "player_connected"@, None::<Seq<char>>)
}

/// The key the disconnect handler is registered under.
pub open spec fn disconnect_key() -> KeyV {
    (EventCategory::Core, "player_disconnected"@, None::<Seq<char>>)
}

/// The key the chat handler is registered under.
pub open spec fn chat_key() -> KeyV {
    (EventCategory::Client, "chat"@, Some("message"@))
}

/// The key the movement handler is registered under.
pub open spec fn move_key() -> KeyV {
    (EventCategory::Client, "movement"@, Some("position_update"@))
}

/// The key the jump handler is registered under.
pub open spec fn jump_key() -> KeyV {
    (EventCategory::Client, "movement"@, Some("jump"@))
}

/// The key the activity-log watcher is registered under.
pub open spec fn logger_key() -> KeyV {
    (EventCategory::Plugin, "logger"@, Some("activity_logged"@))
}

/// The key the item-use watcher is registered under.
pub open spec fn item_key() -> KeyV {
    (EventCategory::Plugin, "inventory"@, Some("item_used"@))
}

/// The handlers the sample plugin registers for `q`: exactly one per key it
/// subscribes to, none elsewhere.
pub open spec fn sample_handlers_for(q: KeyV) -> Seq<HandlerKind> {
    if q == connect_key() {
        seq![HandlerKind::Connect]
    } else if q == disconnect_key() {
        seq![HandlerKind::Disconnect]
    } else if q == chat_key() {
        seq![HandlerKind::Chat]
    } else if q == move_key() {
        seq![HandlerKind::Move]
    } else if q == jump_key() {
        seq![HandlerKind::Jump]
    } else if q == logger_key() {
        seq![HandlerKind::PluginLog]
    } else if q == item_key() {
        seq![HandlerKind::PluginItem]
    } else {
        Seq::empty()
    }
}

/// The seven keys the plugin subscribes to are pairwise distinct.
proof fn lemma_sample_keys_distinct()
    ensures
        connect_key() != disconnect_key(),
        chat_key() != move_key(),
        chat_key() != jump_key(),
        move_key() != jump_key(),
        logger_key() != item_key(),
{
    reveal_strlit("player_connected");
    reveal_strlit("player_disconnected");
    reveal_strlit("chat");
    reveal_strlit("movement");
    reveal_strlit("position_update");
    reveal_strlit("jump");
    reveal_strlit("logger");
    reveal_strlit("inventory");
    assert("player_connected"@.len() != "player_disconnected"@.len());
    assert("chat"@.len() != "movement"@.len());
    assert("position_update"@.len() != "jump"@.len());
    assert("logger"@.len() != "inventory"@.len());
}

/// The sample plugin: a name, its configuration, and the per-player
/// statistics it keeps while handling events.
pub struct SamplePlugin {
    pub name: String,
    pub player_data: StateStore,
    pub config: PluginConfig,
}

impl SamplePlugin {
    /// The plugin's store keeps at most one record per player.
    pub open spec fn wf(self) -> bool {
        self.player_data.wf()
    }

    /// A fresh plugin instance: named "sample", tracking nobody, with the
    /// stock configuration.
    pub fn new() -> (r: SamplePlugin)
        ensures
            r.wf(),
            r.name@ == "sample"@,
            r.player_data@ == Map::<u64, PlayerData>::empty(),
            r.config.welcome_message@ == "Welcome to the server!"@,
            r.config.max_players_tracked == 100,
            r.config.enable_notifications,
    {
        SamplePlugin {
            name: "sample".to_owned(),
            player_data: StateStore::new(),
            config: PluginConfig::default(),
        }
    }

    /// The plugin's name.
    pub fn name(&self) -> (r: &str)
        ensures
            r@ == self.name@,
    {
        self.name.as_str()
    }

    /// The plugin's version.
    pub fn version(&self) -> (r: &str)
        ensures
            r@ == "1.0.0"@,
    {
        "1.0.0"
    }

    /// The record for `player_id`, creating one (joined at `now`) first if
    /// the player is not yet tracked.
    pub fn get_or_create_player_data(&mut self, player_id: u64, now: u64) -> (r: PlayerData)
        requires
            old(self).wf(),
        ensures
            final(self).wf(),
            final(self).name == old(self).name,
            final(self).config == old(self).config,
            old(self).player_data@.contains_key(player_id) ==> final(self).player_data@ == old(self).player_data@ && r == old(self).player_data@[player_id],
            !old(self).player_data@.contains_key(player_id) ==> final(self).player_data@ == old(self).player_data@.insert(player_id, PlayerData::spec_fresh(now)) && r
                == PlayerData::spec_fresh(now),
    {
        self.player_data.upsert(player_id, now)
    }

    /// Apply `f` to the record for `player_id`; a no-op if the player is not
    /// tracked.
    pub fn update_player_data<F: FnOnce(PlayerData) -> PlayerData>(&mut self, player_id: u64, f: F)
        requires
            old(self).wf(),
            old(self).player_data@.contains_key(player_id) ==> f.requires(
                (old(self).player_data@[player_id],),
            ),
        ensures
            final(self).wf(),
            final(self).name == old(self).name,
            final(self).config == old(self).config,
            old(self).player_data@.contains_key(player_id) ==> exists|d2: PlayerData|
                call_ensures(f, (old(self).player_data@[player_id],), d2) && final(self).player_data@ == old(self).player_data@.insert(player_id, d2),
            !old(self).player_data@.contains_key(player_id) ==> final(self).player_data@ == old(self).player_data@,
    {
        let _ = self.player_data.mutate(player_id, f);
    }

    /// A snapshot of `player_id`'s statistics at time `now`, if the player
    /// is tracked.
    pub fn get_player_stats(&self, player_id: u64, now: u64) -> (r: Option<PlayerStatsEvent>)
        requires
            self.wf(),
        ensures
            match r {
                Some(ev) => self.player_data@.contains_key(player_id) && ev == (PlayerStatsEvent {
                    player_id,
                    messages_sent: self.player_data@[player_id].message_count,
                    jumps_performed: self.player_data@[player_id].jump_count,
                    time_online: sat_sub(now, self.player_data@[player_id].join_time),
                }),
                None => !self.player_data@.contains_key(player_id),
            },
    {
        match self.player_data.get(player_id) {
            Some(d) => Some(
                PlayerStatsEvent {
                    player_id,
                    messages_sent: d.message_count,
                    jumps_performed: d.jump_count,
                    time_online: now.saturating_sub(d.join_time),
                },
            ),
            None => None,
        }
    }

    /// Subscribe the plugin's handlers: the core connection events, the
    /// client chat and movement events, and two plugin-to-plugin topics.
    /// Registration always succeeds; each key gains exactly its one handler,
    /// after whatever was registered there before.
    pub fn register_handlers(&self, events: &mut EventBus) -> (r: Result<(), PluginError>)
        requires
            old(events).wf(),
        ensures
            final(events).wf(),
            r matches Ok(_),
            forall|q: KeyV| #[trigger] final(events).handlers_for(q) == old(events).handlers_for(q)
                + sample_handlers_for(q),
    {
        proof {
            lemma_sample_keys_distinct();
        }
        events.register(EventKey::core_key("player_connected"), HandlerKind::Connect);
        events.register(EventKey::core_key("player_disconnected"), HandlerKind::Disconnect);
        events.register(EventKey::client_key("chat", "message"), HandlerKind::Chat);
        events.register(EventKey::client_key("movement", "position_update"), HandlerKind::Move);
        events.register(EventKey::client_key("movement", "jump"), HandlerKind::Jump);
        events.register(EventKey::plugin_key("logger", "activity_logged"), HandlerKind::PluginLog);
        events.register(EventKey::plugin_key("inventory", "item_used"), HandlerKind::PluginItem);
        proof {
            assert forall|q: KeyV| #[trigger] events.handlers_for(q) == old(events).handlers_for(q)
                + sample_handlers_for(q) by {
                if q == connect_key() {
                    assert(events.handlers_for(q) =~= old(events).handlers_for(q)
                        + sample_handlers_for(q));
                } else if q == disconnect_key() {
                    assert(events.handlers_for(q) =~= old(events).handlers_for(q)
                        + sample_handlers_for(q));
                } else if q == chat_key() {
                    assert(events.handlers_for(q) =~= old(events).handlers_for(q)
                        + sample_handlers_for(q));
                } else if q == move_key() {
                    assert(events.handlers_for(q) =~= old(events).handlers_for(q)
                        + sample_handlers_for(q));
                } else if q == jump_key() {
                    assert(events.handlers_for(q) =~= old(events).handlers_for(q)
                        + sample_handlers_for(q));
                } else if q == logger_key() {
                    assert(events.handlers_for(q) =~= old(events).handlers_for(q)
                        + sample_handlers_for(q));
                } else if q == item_key() {
                    assert(events.handlers_for(q) =~= old(events).handlers_for(q)
                        + sample_handlers_for(q));
                } else {
                    assert(events.handlers_for(q) =~= old(events).handlers_for(q)
                        + sample_handlers_for(q));
                }
            }
        }
        Ok(())
    }

    /// The notifications announced at startup: the plugin's own startup
    /// notice, and an information request to the inventory plugin.
    pub fn on_init(&self, now: u64) -> (r: Vec<OutboundNotice>)
        ensures
            r@.len() == 2,
            r@[0].target@ == "sample"@,
            r@[0].topic@ == "startup"@,
            r@[0].plugin@ == "sample"@,
            r@[0].message@ == "Sample plugin is now online and ready!"@,
            r@[0].timestamp == now,
            r@[1].target@ == "inventory"@,
            r@[1].topic@ == "get_system_info"@,
            r@[1].plugin@ == "sample"@,
            r@[1].message@ == ""@,
            r@[1].timestamp == now,
    {
        let mut out: Vec<OutboundNotice> = Vec::new();
        out.push(
            OutboundNotice {
                target: "sample".to_owned(),
                topic: "startup".to_owned(),
                plugin: "sample".to_owned(),
                message: "Sample plugin is now online and ready!".to_owned(),
                timestamp: now,
            },
        );
        out.push(
            OutboundNotice {
                target: "inventory".to_owned(),
                topic: "get_system_info".to_owned(),
                plugin: "sample".to_owned(),
                message: "".to_owned(),
                timestamp: now,
            },
        );
        out
    }

    /// The session statistics and the shutdown notice announced when the
    /// plugin goes offline: how many players are tracked and their total
    /// message and jump counts.
    pub fn on_shutdown(&self, now: u64) -> (r: (OutboundNotice, SessionStats))
        requires
            self.wf(),
        ensures
            r.0.target@ == "sample"@,
            r.0.topic@ == "shutdown"@,
            r.0.plugin@ == "sample"@,
            r.0.message@ == "Sample plugin going offline. Thanks for the demonstration!"@,
            r.0.timestamp == now,
            r.1.players_tracked == self.player_data@.len(),
            r.1.total_messages as int == if sum_messages(self.player_data.entries_seq())
                <= u64::MAX as int {
                sum_messages(self.player_data.entries_seq())
            } else {
                u64::MAX as int
            },
            r.1.total_jumps as int == if sum_jumps(self.player_data.entries_seq())
                <= u64::MAX as int {
                sum_jumps(self.player_data.entries_seq())
            } else {
                u64::MAX as int
            },
    {
        let player_count = self.player_data.len();
        let (total_messages, total_jumps) = self.player_data.totals();
        let notice = OutboundNotice {
            target: "sample".to_owned(),
            topic: "shutdown".to_owned(),
            plugin: "sample".to_owned(),
            message: "Sample plugin going offline. Thanks for the demonstration!".to_owned(),
            timestamp: now,
        };
        let stats = SessionStats {
            players_tracked: player_count as u64,
            total_messages,
            total_jumps,
        };
        (notice, stats)
    }
}

/// After a connect event for player `x` is dispatched through the plugin's
/// registered handlers, the store holds a record for `x` whose counters are
/// zero and whose join time is the time of the event; no other player's
/// record changes.
pub proof fn lemma_connect_gives_zeroed_record(m: Map<u64, PlayerData>, x: u64, now: u64)
    ensures
        dispatch_store(
            sample_handlers_for(connect_key()),
            EventPayload::Connect { player_id: x },
            m,
            now,
        ) == m.insert(x, PlayerData::spec_fresh(now)),
        PlayerData::spec_fresh(now).message_count == 0,
        PlayerData::spec_fresh(now).jump_count == 0,
        PlayerData::spec_fresh(now).join_time == now,
{
    lemma_dispatch_singleton(
        HandlerKind::Connect,
        EventPayload::Connect { player_id: x },
        m,
        now,
        true,
    );
}

/// After a disconnect event for player `x` is dispatched through the
/// plugin's registered handlers, the store holds no record for `x`; no other
/// player's record changes.
pub proof fn lemma_disconnect_clears_record(m: Map<u64, PlayerData>, x: u64, now: u64)
    ensures
        dispatch_store(
            sample_handlers_for(disconnect_key()),
            EventPayload::Disconnect { player_id: x },
            m,
            now,
        ) == m.remove(x),
        !dispatch_store(
            sample_handlers_for(disconnect_key()),
            EventPayload::Disconnect { player_id: x },
            m,
            now,
        ).contains_key(x),
{
    lemma_sample_keys_distinct();
    lemma_dispatch_singleton(
        HandlerKind::Disconnect,
        EventPayload::Disconnect { player_id: x },
        m,
        now,
        true,
    );
}

} // verus!
