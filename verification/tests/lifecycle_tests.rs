use sample_plugin::EventBus;
use sample_plugin::EventKey;
use sample_plugin::EventPayload;
use sample_plugin::PlayerChatEvent;
use sample_plugin::PlayerData;
use sample_plugin::PluginError;
use sample_plugin::SamplePlugin;
use sample_plugin::StateStore;

#[test]
fn new_plugin_has_stock_configuration() {
    let plugin = SamplePlugin::new();
    assert_eq!(plugin.config.welcome_message, "Welcome to the server!");
    assert_eq!(plugin.config.max_players_tracked, 100);
    assert!(plugin.config.enable_notifications);
    assert_eq!(plugin.player_data.len(), 0);
}

#[test]
fn get_or_create_creates_once_and_keeps_the_record() {
    let mut plugin = SamplePlugin::new();
    let first = plugin.get_or_create_player_data(5, 1000);
    assert_eq!(first.join_time, 1000);
    assert_eq!(first.message_count, 0);
    let again = plugin.get_or_create_player_data(5, 2000);
    assert_eq!(again.join_time, 1000);
    assert_eq!(plugin.player_data.len(), 1);
}

#[test]
fn update_player_data_is_a_no_op_for_unknown_players() {
    let mut plugin = SamplePlugin::new();
    plugin.update_player_data(5, |d: PlayerData| PlayerData {
        message_count: d.message_count + 1,
        ..d
    });
    assert_eq!(plugin.player_data.len(), 0);

    plugin.get_or_create_player_data(5, 0);
    plugin.update_player_data(5, |d: PlayerData| PlayerData {
        message_count: d.message_count + 1,
        ..d
    });
    let record = plugin.player_data.get(5).unwrap();
    assert_eq!(record.message_count, 1);
}

#[test]
fn store_remove_returns_the_record() {
    let mut store = StateStore::new();
    store.insert(1, PlayerData { join_time: 7, last_position: None, message_count: 2, jump_count: 3 });
    let removed = store.remove(1).unwrap();
    assert_eq!(removed.join_time, 7);
    assert_eq!(removed.message_count, 2);
    assert!(store.remove(1).is_none());
    assert!(store.get(1).is_none());
}

#[test]
fn on_init_announces_startup_and_queries_inventory() {
    let plugin = SamplePlugin::new();
    let notices = plugin.on_init(1234);
    assert_eq!(notices.len(), 2);
    assert_eq!(notices[0].target, "sample");
    assert_eq!(notices[0].topic, "startup");
    assert_eq!(notices[0].plugin, "sample");
    assert_eq!(notices[0].message, "Sample plugin is now online and ready!");
    assert_eq!(notices[0].timestamp, 1234);
    assert_eq!(notices[1].target, "inventory");
    assert_eq!(notices[1].topic, "get_system_info");
    assert_eq!(notices[1].plugin, "sample");
    assert_eq!(notices[1].timestamp, 1234);
}

#[test]
fn on_shutdown_reports_session_totals() {
    let mut plugin = SamplePlugin::new();
    let bus = {
        let mut bus = EventBus::new();
        plugin.register_handlers(&mut bus).unwrap();
        bus
    };
    let connect = EventKey::core_key("player_connected");
    let chat_key = EventKey::client_key("chat", "message");
    bus.publish(&connect, EventPayload::Connect { player_id: 1 }, &mut plugin.player_data, 0, true);
    bus.publish(&connect, EventPayload::Connect { player_id: 2 }, &mut plugin.player_data, 0, true);
    for _ in 0..3 {
        bus.publish(
            &chat_key,
            EventPayload::Chat(PlayerChatEvent {
                player_id: 1,
                message: "a word".to_string(),
                channel: "general".to_string(),
                timestamp: 0,
            }),
            &mut plugin.player_data,
            1,
            true,
        );
    }
    let (notice, stats) = plugin.on_shutdown(999);
    assert_eq!(notice.target, "sample");
    assert_eq!(notice.topic, "shutdown");
    assert_eq!(notice.message, "Sample plugin going offline. Thanks for the demonstration!");
    assert_eq!(notice.timestamp, 999);
    assert_eq!(stats.players_tracked, 2);
    assert_eq!(stats.total_messages, 3);
    assert_eq!(stats.total_jumps, 0);
}

#[test]
fn on_shutdown_with_empty_store_reports_zeros() {
    let plugin = SamplePlugin::new();
    let (_, stats) = plugin.on_shutdown(0);
    assert_eq!(stats.players_tracked, 0);
    assert_eq!(stats.total_messages, 0);
    assert_eq!(stats.total_jumps, 0);
}

#[test]
fn plugin_error_variants_carry_their_reasons() {
    let e = PluginError::InitializationFailed("emit failed".to_string());
    assert!(matches!(e, PluginError::InitializationFailed(ref m) if m == "emit failed"));
    let e = PluginError::ExecutionError("sink closed".to_string());
    assert!(matches!(e, PluginError::ExecutionError(ref m) if m == "sink closed"));
    let e = PluginError::DeserializationError("bad shape".to_string());
    assert!(matches!(e, PluginError::DeserializationError(ref m) if m == "bad shape"));
}

#[test]
fn stats_time_online_never_underflows() {
    let mut plugin = SamplePlugin::new();
    plugin.get_or_create_player_data(1, 5000);
    let stats = plugin.get_player_stats(1, 3000).unwrap();
    assert_eq!(stats.time_online, 0);
}
