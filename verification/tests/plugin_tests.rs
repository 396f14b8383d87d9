use sample_plugin::EventBus;
use sample_plugin::EventKey;
use sample_plugin::EventPayload;
use sample_plugin::HandlerAction;
use sample_plugin::HandlerError;
use sample_plugin::HandlerKind;
use sample_plugin::PlayerChatEvent;
use sample_plugin::PlayerJumpEvent;
use sample_plugin::PlayerMoveEvent;
use sample_plugin::Position;
use sample_plugin::SamplePlugin;
use sample_plugin::distance_between;
use sample_plugin::format_duration;

fn ready_plugin() -> (SamplePlugin, EventBus) {
    let plugin = SamplePlugin::new();
    let mut bus = EventBus::new();
    plugin.register_handlers(&mut bus).unwrap();
    (plugin, bus)
}

fn chat(player_id: u64, message: &str) -> EventPayload {
    EventPayload::Chat(PlayerChatEvent {
        player_id,
        message: message.to_string(),
        channel: "general".to_string(),
        timestamp: 0,
    })
}

#[test]
fn test_distance_calculation() {
    let pos1 = Position { x: 0, y: 0, z: 0 };
    let pos2 = Position { x: 3, y: 4, z: 0 };
    assert_eq!(distance_between(&pos1, &pos2), 5);
}

#[test]
fn test_format_duration() {
    assert_eq!(format_duration(0), "0s");
    assert_eq!(format_duration(45), "45s");
    assert_eq!(format_duration(90), "1m 30s");
    assert_eq!(format_duration(3661), "1h 1m 1s");
}

#[test]
fn test_plugin_creation() {
    let plugin = SamplePlugin::new();
    assert_eq!(plugin.name(), "sample");
    assert_eq!(plugin.version(), "1.0.0");
}

#[test]
fn distance_is_symmetric_and_zero_on_self() {
    let a = Position { x: 10, y: -7, z: 2 };
    let b = Position { x: -3, y: 5, z: 40 };
    assert_eq!(distance_between(&a, &b), distance_between(&b, &a));
    assert_eq!(distance_between(&a, &a), 0);
    assert_eq!(distance_between(&b, &b), 0);
}

#[test]
fn format_duration_edges() {
    assert_eq!(format_duration(59), "59s");
    assert_eq!(format_duration(60), "1m 0s");
    assert_eq!(format_duration(3600), "1h 0m 0s");
    assert_eq!(format_duration(3599), "59m 59s");
    assert_eq!(format_duration(86400), "24h 0m 0s");
}

#[test]
fn connect_gives_zeroed_record_and_disconnect_clears_it() {
    let (mut plugin, bus) = ready_plugin();
    let connect = EventKey::core_key("player_connected");
    let disconnect = EventKey::core_key("player_disconnected");

    let (results, actions) = bus.publish(
        &connect,
        EventPayload::Connect { player_id: 9 },
        &mut plugin.player_data,
        5000,
        true,
    );
    assert_eq!(results, vec![Ok(())]);
    assert_eq!(actions, vec![HandlerAction::PlayerInitialized { player_id: 9 }]);
    let stats = plugin.get_player_stats(9, 8000).unwrap();
    assert_eq!(stats.messages_sent, 0);
    assert_eq!(stats.jumps_performed, 0);
    assert_eq!(stats.time_online, 3000);

    let (results, actions) = bus.publish(
        &disconnect,
        EventPayload::Disconnect { player_id: 9 },
        &mut plugin.player_data,
        9000,
        true,
    );
    assert_eq!(results, vec![Ok(())]);
    assert_eq!(
        actions,
        vec![HandlerAction::PlayerLeft { player_id: 9, online_ms: 4000 }]
    );
    assert!(plugin.get_player_stats(9, 9000).is_none());
}

#[test]
fn connect_and_disconnect_through_raw_json() {
    let (mut plugin, bus) = ready_plugin();
    let connect = EventKey::core_key("player_connected");
    let disconnect = EventKey::core_key("player_disconnected");

    let payload: serde_json::Value = serde_json::from_str("{\"player_id\": 42}").unwrap();
    let (results, _) = bus.publish(
        &connect,
        EventPayload::Json(payload),
        &mut plugin.player_data,
        100,
        true,
    );
    assert_eq!(results, vec![Ok(())]);
    assert!(plugin.get_player_stats(42, 100).is_some());

    let payload: serde_json::Value = serde_json::from_str("{\"player_id\": 42}").unwrap();
    let (results, _) = bus.publish(
        &disconnect,
        EventPayload::Json(payload),
        &mut plugin.player_data,
        200,
        true,
    );
    assert_eq!(results, vec![Ok(())]);
    assert!(plugin.get_player_stats(42, 200).is_none());
}

#[test]
fn unparseable_json_on_connect_is_a_quiet_no_op() {
    let (mut plugin, bus) = ready_plugin();
    let connect = EventKey::core_key("player_connected");
    let payload: serde_json::Value = serde_json::from_str("{\"who\": \"nobody\"}").unwrap();
    let (results, actions) =
        bus.publish(&connect, EventPayload::Json(payload), &mut plugin.player_data, 0, true);
    assert_eq!(results, vec![Ok(())]);
    assert!(actions.is_empty());
    assert_eq!(plugin.player_data.len(), 0);
}

#[test]
fn chat_counts_messages_and_spots_commands() {
    let (mut plugin, bus) = ready_plugin();
    let connect = EventKey::core_key("player_connected");
    let chat_key = EventKey::client_key("chat", "message");
    bus.publish(
        &connect,
        EventPayload::Connect { player_id: 1 },
        &mut plugin.player_data,
        0,
        true,
    );

    let (results, actions) = bus.publish(&chat_key, chat(1, "HELLO there"), &mut plugin.player_data, 1, true);
    assert_eq!(results, vec![Ok(())]);
    assert_eq!(actions, vec![HandlerAction::GreetingDetected { player_id: 1 }]);

    let (_, actions) = bus.publish(&chat_key, chat(1, "!stats please"), &mut plugin.player_data, 2, true);
    assert_eq!(actions, vec![HandlerAction::StatsRequested { player_id: 1 }]);

    let (_, actions) = bus.publish(&chat_key, chat(1, "good game"), &mut plugin.player_data, 3, true);
    assert!(actions.is_empty());

    let stats = plugin.get_player_stats(1, 10).unwrap();
    assert_eq!(stats.messages_sent, 3);
}

#[test]
fn greeting_needs_notifications_enabled() {
    let (mut plugin, bus) = ready_plugin();
    let chat_key = EventKey::client_key("chat", "message");
    let (_, actions) = bus.publish(&chat_key, chat(1, "hi all"), &mut plugin.player_data, 0, false);
    assert!(actions.is_empty());
    let (_, actions) = bus.publish(&chat_key, chat(1, "hi all"), &mut plugin.player_data, 0, true);
    assert_eq!(actions, vec![HandlerAction::GreetingDetected { player_id: 1 }]);
}

#[test]
fn movement_tracks_last_position_and_jumps_count() {
    let (mut plugin, bus) = ready_plugin();
    let connect = EventKey::core_key("player_connected");
    let move_key = EventKey::client_key("movement", "position_update");
    let jump_key = EventKey::client_key("movement", "jump");
    bus.publish(
        &connect,
        EventPayload::Connect { player_id: 3 },
        &mut plugin.player_data,
        0,
        true,
    );

    let from = Position { x: 0, y: 0, z: 0 };
    let to = Position { x: 4, y: 5, z: 6 };
    bus.publish(
        &move_key,
        EventPayload::Move(PlayerMoveEvent { player_id: 3, from_position: from, to_position: to, speed: 2 }),
        &mut plugin.player_data,
        1,
        true,
    );
    let record = plugin.player_data.get(3).unwrap();
    assert_eq!(record.last_position, Some(to));

    let (results, actions) = bus.publish(
        &jump_key,
        EventPayload::Jump(PlayerJumpEvent { player_id: 3, height: 7, position: to, timestamp: 2 }),
        &mut plugin.player_data,
        2,
        true,
    );
    assert_eq!(results, vec![Ok(())]);
    assert_eq!(actions, vec![HandlerAction::HighJump { player_id: 3 }]);

    let (_, actions) = bus.publish(
        &jump_key,
        EventPayload::Jump(PlayerJumpEvent { player_id: 3, height: 2, position: to, timestamp: 3 }),
        &mut plugin.player_data,
        3,
        true,
    );
    assert!(actions.is_empty());
    let stats = plugin.get_player_stats(3, 4).unwrap();
    assert_eq!(stats.jumps_performed, 2);
}

#[test]
fn failing_handler_does_not_stop_later_handlers() {
    let mut plugin = SamplePlugin::new();
    let mut bus = EventBus::new();
    let key = EventKey::client_key("movement", "jump");
    bus.register(key.clone(), HandlerKind::Chat);
    bus.register(key.clone(), HandlerKind::Jump);
    bus.register(key.clone(), HandlerKind::PluginLog);

    plugin.player_data.insert(8, sample_plugin::PlayerData {
        join_time: 0,
        last_position: None,
        message_count: 0,
        jump_count: 0,
    });
    let (results, _) = bus.publish(
        &key,
        EventPayload::Jump(PlayerJumpEvent {
            player_id: 8,
            height: 1,
            position: Position { x: 0, y: 0, z: 0 },
            timestamp: 0,
        }),
        &mut plugin.player_data,
        0,
        true,
    );
    assert_eq!(
        results,
        vec![Err(HandlerError::Deserialization), Ok(()), Ok(())]
    );
    let record = plugin.player_data.get(8).unwrap();
    assert_eq!(record.jump_count, 1);
}

#[test]
fn unknown_key_is_a_silent_no_op() {
    let (mut plugin, bus) = ready_plugin();
    let key = EventKey::client_key("trade", "offer");
    let (results, actions) = bus.publish(&key, chat(1, "hello"), &mut plugin.player_data, 0, true);
    assert!(results.is_empty());
    assert!(actions.is_empty());
}

#[test]
fn publishes_for_different_players_commute() {
    let chat_key = EventKey::client_key("chat", "message");
    let jump_key = EventKey::client_key("movement", "jump");
    let jump = |id: u64| {
        EventPayload::Jump(PlayerJumpEvent {
            player_id: id,
            height: 1,
            position: Position { x: 0, y: 0, z: 0 },
            timestamp: 0,
        })
    };

    let mut order_a = Vec::new();
    let mut order_b = Vec::new();
    for first_chat in [true, false] {
        let (mut plugin, bus) = ready_plugin();
        let connect = EventKey::core_key("player_connected");
        bus.publish(&connect, EventPayload::Connect { player_id: 1 }, &mut plugin.player_data, 0, true);
        bus.publish(&connect, EventPayload::Connect { player_id: 2 }, &mut plugin.player_data, 0, true);
        if first_chat {
            bus.publish(&chat_key, chat(1, "one"), &mut plugin.player_data, 1, true);
            bus.publish(&jump_key, jump(2), &mut plugin.player_data, 2, true);
        } else {
            bus.publish(&jump_key, jump(2), &mut plugin.player_data, 2, true);
            bus.publish(&chat_key, chat(1, "one"), &mut plugin.player_data, 1, true);
        }
        let s1 = plugin.get_player_stats(1, 10).unwrap();
        let s2 = plugin.get_player_stats(2, 10).unwrap();
        if first_chat {
            order_a = vec![s1, s2];
        } else {
            order_b = vec![s1, s2];
        }
    }
    assert_eq!(order_a, order_b);
    assert_eq!(order_a[0].messages_sent, 1);
    assert_eq!(order_a[1].jumps_performed, 1);
}

#[test]
fn same_key_handlers_run_in_registration_order() {
    let mut plugin = SamplePlugin::new();
    let mut bus = EventBus::new();
    let key = EventKey::core_key("player_connected");
    bus.register(key.clone(), HandlerKind::Connect);
    bus.register(key.clone(), HandlerKind::Disconnect);
    let (results, actions) = bus.publish(
        &key,
        EventPayload::Connect { player_id: 4 },
        &mut plugin.player_data,
        50,
        true,
    );
    assert_eq!(results, vec![Ok(()), Err(HandlerError::Deserialization)]);
    assert_eq!(actions, vec![HandlerAction::PlayerInitialized { player_id: 4 }]);
    assert!(plugin.player_data.get(4).is_some());
}
