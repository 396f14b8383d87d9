//! An in-process typed event bus with category-scoped handler registration,
//! together with a per-player statistics store, as exercised by a sample
//! game-server plugin.

pub mod bus;
pub mod duration;
pub mod events;
pub mod jsonval;
pub mod plugin;
pub mod position;
pub mod store;
pub mod text;

pub use bus::EventBus;
pub use bus::HandlerKind;
pub use duration::format_duration;
pub use events::EventCategory;
pub use events::EventKey;
pub use events::EventPayload;
pub use events::HandlerAction;
pub use events::HandlerError;
pub use events::OutboundNotice;
pub use events::PlayerChatEvent;
pub use events::PlayerJumpEvent;
pub use events::PlayerMoveEvent;
pub use events::PlayerStatsEvent;
pub use events::PlayerWelcomedEvent;
pub use events::PluginError;
pub use events::SessionStats;
pub use plugin::PluginConfig;
pub use plugin::SamplePlugin;
pub use position::Position;
pub use position::distance_between;
pub use store::PlayerData;
pub use store::StateStore;
