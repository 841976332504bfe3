use base64::Engine;
use pusher_rs::{
    api_result, decrypt, derive_secret, encrypt, seal_with_iv, BatchEvent, ChannelType, ConnectionState,
    Dispatcher, Event, PusherAuth, PusherClient, PusherConfig, PusherError, Reaction,
    ReconnectPolicy, Transport,
};
use pusher_rs::channels::Channel;

fn config() -> PusherConfig {
    PusherConfig {
        app_id: "42".to_string(),
        app_key: "key".to_string(),
        app_secret: "secret".to_string(),
        cluster: "mt1".to_string(),
        host: None,
        use_tls: true,
    }
}

const HANDSHAKE: &str = r#"{"event":"pusher:connection_established","data":"{\"socket_id\":\"123.456\",\"activity_timeout\":120}"}"#;

fn connected_client() -> PusherClient {
    let mut client = PusherClient::new(config()).unwrap();
    client.connect().unwrap();
    match client.handle_frame(HANDSHAKE) {
        Reaction::Deliver(e) => assert_eq!(e.event, "pusher:connection_established"),
        other => panic!("unexpected reaction {:?}", other),
    }
    client
}

fn delivered(r: Reaction) -> Event {
    match r {
        Reaction::Deliver(e) => e,
        other => panic!("expected an event, got {:?}", other),
    }
}

#[test]
fn test_client_creation() {
    let client = PusherClient::new(config()).unwrap();
    assert_eq!(client.get_connection_state(), ConnectionState::Disconnected);
}

#[test]
fn test_generate_shared_secret() {
    let client = PusherClient::new(config()).unwrap();
    let secret = client.generate_shared_secret("test-channel");
    assert!(!secret.is_empty());
}

#[test]
fn test_trigger_batch() {
    let client = PusherClient::new(config()).unwrap();
    let batch_events = vec![
        BatchEvent {
            channel: "test-channel-1".to_string(),
            event: "test-event-1".to_string(),
            data: "{\"message\": \"Hello from event 1\"}".to_string(),
        },
        BatchEvent {
            channel: "test-channel-2".to_string(),
            event: "test-event-2".to_string(),
            data: "{\"message\": \"Hello from event 2\"}".to_string(),
        },
    ];
    let result = client.trigger_batch(batch_events);
    assert!(result.is_ok());
}

#[test]
fn test_pusher_client_connection() {
    let mut client = connected_client();
    assert_eq!(client.get_connection_state(), ConnectionState::Connected);
    let socket_id = client.get_socket_id().unwrap();
    assert!(socket_id.is_some(), "Socket ID should be set after connection");
    assert!(!socket_id.unwrap().is_empty(), "Socket ID should not be empty");
    client.disconnect();
    assert_eq!(client.get_connection_state(), ConnectionState::Disconnected);
}

#[test]
fn test_channel_subscription() {
    let mut client = connected_client();
    assert_eq!(client.get_connection_state(), ConnectionState::Connected);
    let socket_id = client.get_socket_id().unwrap();
    assert!(socket_id.is_some(), "Socket ID should be set before subscribing");
    assert!(!socket_id.unwrap().is_empty(), "Socket ID should not be empty");
    client.subscribe("test-channel").expect("Failed to subscribe to channel");
    let channels = client.get_subscribed_channels();
    assert!(channels.contains(&"test-channel".to_string()), "Channel not found in subscribed channels");
}

#[test]
fn test_event_binding() {
    let mut client = connected_client();
    assert_eq!(client.get_connection_state(), ConnectionState::Connected);
    let socket_id = client.get_socket_id().unwrap();
    assert!(socket_id.is_some(), "Socket ID should be set after connection");
    assert!(!socket_id.unwrap().is_empty(), "Socket ID should not be empty");
    client.subscribe("test-channel").unwrap();
    client.bind("test-event", 7).unwrap();
    client.trigger("test-channel", "test-event", "{}").unwrap();
    let e = delivered(client.handle_frame(r#"{"event":"test-event","channel":"test-channel","data":"{}"}"#));
    assert_eq!(client.handlers_for(&e.event), vec![7], "Event should have been received");
}

#[test]
fn test_encrypted_channel() {
    let mut client = connected_client();
    client.subscribe_encrypted("private-encrypted-channel").unwrap();
    let channels = client.get_subscribed_channels();
    assert!(channels.contains(&"private-encrypted-channel".to_string()));
}

#[test]
fn test_send_payload() {
    let mut client = connected_client();
    assert_eq!(client.get_connection_state(), ConnectionState::Connected);
    let test_channel = "test-channel-payload";
    let test_event = "test-event-payload";
    let test_data = r#"{"message": "Hello, Pusher!"}"#;
    client.subscribe(test_channel).expect("Failed to subscribe to channel");
    client.bind(test_event, 1).expect("Failed to bind event");
    let req = client.trigger(test_channel, test_event, test_data).unwrap();
    let frame = format!(
        r#"{{"event":"{}","channel":"{}","data":{}}}"#,
        test_event,
        test_channel,
        serde_json::to_string(test_data).unwrap()
    );
    assert!(req.body.contains(&serde_json::to_string(test_data).unwrap()));
    let e = delivered(client.handle_frame(&frame));
    assert_eq!(client.handlers_for(&e.event), vec![1], "Event was not received");
    assert_eq!(e.data.trim(), test_data, "Received data does not match sent data");
    client.unsubscribe(test_channel).expect("Failed to unsubscribe from channel");
    assert!(client.disconnect(), "Failed to disconnect");
}

#[test]
fn derive_secret_is_hmac_of_channel_name() {
    let a = derive_secret("secret", "private-encrypted-orders");
    let b = derive_secret("secret", "private-encrypted-orders");
    assert_eq!(a, b);
    assert_eq!(a.len(), 32);
    assert_eq!(
        pusher_rs::text::to_hex(&a),
        "47bc30f5e09f9fc98bb1fc383052724af90cff71509d0812b399c87d6e1c7019"
    );
    assert_ne!(a, derive_secret("secret", "private-encrypted-other"));
}

#[test]
fn encrypt_round_trip_and_fresh_iv() {
    let key = derive_secret("secret", "private-encrypted-orders");
    let c1 = encrypt("{\"id\":1}", &key);
    let c2 = encrypt("{\"id\":1}", &key);
    assert_ne!(c1, c2);
    assert_eq!(decrypt(&c1, &key).unwrap(), "{\"id\":1}");
    assert_eq!(decrypt(&c2, &key).unwrap(), "{\"id\":1}");
    let empty = encrypt("", &key);
    assert_eq!(decrypt(&empty, &key).unwrap(), "");
}

#[test]
fn decrypt_rejects_corrupt_input() {
    let key = derive_secret("secret", "private-encrypted-orders");
    assert!(matches!(decrypt("not base64!!", &key), Err(PusherError::DecryptionError(_))));
    assert!(matches!(decrypt("AAAA", &key), Err(PusherError::DecryptionError(_))));
    let other = derive_secret("secret", "private-encrypted-other");
    let sealed = encrypt("hello world", &key);
    assert!(decrypt(&sealed, &other).map(|s| s != "hello world").unwrap_or(true));
}

#[test]
fn sign_at_gives_known_signature() {
    let auth = PusherAuth::new("key", "secret");
    let body = r#"{"name":"my-event","channel":"my-channel","data":"{\"id\":1}"}"#;
    let params = auth.sign_at("POST", "/apps/42/events", body, 1700000000);
    let expected: Vec<(String, String)> = vec![
        ("auth_key", "key"),
        ("auth_timestamp", "1700000000"),
        ("auth_version", "1.0"),
        ("body_md5", "697721f1d697565a4c2a2c96b9675996"),
        ("auth_signature", "d6045f3c3c1d3e3eb21d23b2d4020d44b0c1bfc9381cc2b30fed7b367f291038"),
    ]
    .into_iter()
    .map(|(k, v)| (k.to_string(), v.to_string()))
    .collect();
    assert_eq!(params, expected);
    assert_eq!(params, auth.sign_at("POST", "/apps/42/events", body, 1700000000));
    let sig = |p: &Vec<(String, String)>| p[4].1.clone();
    assert_ne!(sig(&params), sig(&auth.sign_at("GET", "/apps/42/events", body, 1700000000)));
    assert_ne!(sig(&params), sig(&auth.sign_at("POST", "/apps/43/events", body, 1700000000)));
    assert_ne!(sig(&params), sig(&auth.sign_at("POST", "/apps/42/events", "{}", 1700000000)));
    assert_ne!(sig(&params), sig(&auth.sign_at("POST", "/apps/42/events", body, 1700000001)));
}

#[test]
fn trigger_at_builds_signed_request() {
    let client = PusherClient::new(config()).unwrap();
    let req = client.trigger_at("my-channel", "my-event", "{\"id\":1}", 1700000000).unwrap();
    assert_eq!(req.url, "https://api-mt1.pusher.com/apps/42/events");
    assert_eq!(req.path, "/apps/42/events");
    assert_eq!(req.body, r#"{"name":"my-event","channel":"my-channel","data":"{\"id\":1}"}"#);
    assert_eq!(req.query[4].1, "d6045f3c3c1d3e3eb21d23b2d4020d44b0c1bfc9381cc2b30fed7b367f291038");
}

#[test]
fn trigger_rejects_invalid_json() {
    let client = PusherClient::new(config()).unwrap();
    assert!(matches!(client.trigger("c", "e", "{not json"), Err(PusherError::JsonError(_))));
}

#[test]
fn trigger_batch_body_lists_every_event() {
    let client = PusherClient::new(config()).unwrap();
    let events = vec![
        BatchEvent { channel: "a".to_string(), event: "x".to_string(), data: "1".to_string() },
        BatchEvent { channel: "b".to_string(), event: "y".to_string(), data: "2".to_string() },
    ];
    let req = client.trigger_batch_at(events, 5);
    assert_eq!(req.url, "https://api-mt1.pusher.com/apps/42/batch_events");
    assert_eq!(
        req.body,
        r#"{"batch":[{"name":"x","channel":"a","data":"1"},{"name":"y","channel":"b","data":"2"}]}"#
    );
}

#[test]
fn websocket_url_follows_configuration() {
    let client = PusherClient::new(config()).unwrap();
    assert_eq!(client.get_websocket_url().unwrap(), "wss://ws-mt1.pusher.com/app/key?protocol=7");
    let mut c = config();
    c.use_tls = false;
    c.host = Some("localhost:6001".to_string());
    let client = PusherClient::new(c).unwrap();
    assert_eq!(client.get_websocket_url().unwrap(), "ws://localhost:6001/app/key?protocol=7");
    let mut c = config();
    c.host = Some("bad host".to_string());
    let client = PusherClient::new(c).unwrap();
    assert!(matches!(client.get_websocket_url(), Err(PusherError::UrlError(_))));
}

#[test]
fn subscribe_frames_are_exact() {
    let mut client = connected_client();
    assert_eq!(
        client.subscribe("orders").unwrap(),
        r#"{"event":"pusher:subscribe","data":{"channel":"orders"}}"#
    );
    assert_eq!(
        client.unsubscribe("orders").unwrap(),
        r#"{"event":"pusher:unsubscribe","data":{"channel":"orders"}}"#
    );
    assert!(client.get_subscribed_channels().is_empty());
}

#[test]
fn subscribe_twice_keeps_one_entry() {
    let mut client = connected_client();
    client.subscribe("orders").unwrap();
    client.subscribe("orders").unwrap();
    assert_eq!(client.get_subscribed_channels(), vec!["orders".to_string()]);
}

#[test]
fn unsubscribe_unknown_channel_is_no_error() {
    let mut client = connected_client();
    assert!(client.unsubscribe("never-subscribed").is_ok());
    assert!(client.unsubscribe("never-subscribed").is_ok());
}

#[test]
fn subscribe_when_not_connected_fails() {
    let mut client = PusherClient::new(config()).unwrap();
    assert!(matches!(client.subscribe("orders"), Err(PusherError::ConnectionError(_))));
    assert!(matches!(client.unsubscribe("orders"), Err(PusherError::ConnectionError(_))));
}

#[test]
fn order_created_reaches_bound_handler() {
    let mut client = connected_client();
    client.subscribe("orders").unwrap();
    client.bind("order-created", 11).unwrap();
    let req = client.trigger("orders", "order-created", "{\"id\":1}").unwrap();
    assert_eq!(req.body, r#"{"name":"order-created","channel":"orders","data":"{\"id\":1}"}"#);
    let e = delivered(client.handle_frame(
        r#"{"event":"order-created","channel":"orders","data":"{\"id\":1}"}"#,
    ));
    assert_eq!(e.event, "order-created");
    assert_eq!(e.channel.as_deref(), Some("orders"));
    assert_eq!(e.data, "{\"id\":1}");
    assert_eq!(client.handlers_for(&e.event), vec![11]);
}

#[test]
fn encrypted_trigger_decrypts_under_channel_key() {
    let mut client = connected_client();
    client.subscribe_encrypted("private-encrypted-orders").unwrap();
    let req = client.trigger_encrypted("private-encrypted-orders", "order-created", "{\"id\":1}").unwrap();
    let body: serde_json::Value = serde_json::from_str(&req.body).unwrap();
    let payload = body["data"].as_str().unwrap().to_string();
    let raw = base64::engine::general_purpose::STANDARD.decode(&payload).unwrap();
    assert!(raw.len() > 16);
    assert_eq!((raw.len() - 16) % 16, 0);
    let key = derive_secret("secret", "private-encrypted-orders");
    assert_eq!(decrypt(&payload, &key).unwrap(), "{\"id\":1}");
}

#[test]
fn encrypted_subscribe_needs_prefix() {
    let mut client = connected_client();
    assert!(matches!(client.subscribe_encrypted("orders"), Err(PusherError::ChannelError(_))));
    assert!(client.get_subscribed_channels().is_empty());
    assert!(matches!(
        client.trigger_encrypted_at("orders", "e", "{}", 1),
        Err(PusherError::ChannelError(_))
    ));
}

#[test]
fn encrypted_secret_is_dropped_on_unsubscribe() {
    let mut client = connected_client();
    client.subscribe_encrypted("private-encrypted-orders").unwrap();
    client.unsubscribe("private-encrypted-orders").unwrap();
    assert!(matches!(
        client.trigger_encrypted_at("private-encrypted-orders", "e", "{}", 1),
        Err(PusherError::ChannelError(_))
    ));
}

#[test]
fn handlers_run_in_binding_order() {
    let mut d = Dispatcher::new();
    d.bind("e", 1);
    d.bind("other", 9);
    d.bind("e", 2);
    assert_eq!(d.handlers_for("e"), vec![1, 2]);
    assert_eq!(d.handlers_for("other"), vec![9]);
    assert!(d.handlers_for("none").is_empty());
    let mut client = PusherClient::new(config()).unwrap();
    client.on_connect(3).unwrap();
    client.on_disconnect(4).unwrap();
    assert_eq!(client.handlers_for("pusher:connection_established"), vec![3]);
    assert_eq!(client.handlers_for("pusher:disconnected"), vec![4]);
}

#[test]
fn backoff_doubles_up_to_cap() {
    let p = ReconnectPolicy::default_policy();
    let delays: Vec<u64> = (0..8).map(|i| p.backoff_delay(i)).collect();
    assert_eq!(delays, vec![1000, 2000, 4000, 8000, 16000, 30000, 30000, 30000]);
    let big = ReconnectPolicy { max_attempts: 1, base_delay_ms: u64::MAX - 1, max_delay_ms: u64::MAX };
    assert_eq!(big.backoff_delay(3), u64::MAX);
}

#[test]
fn failures_exhaust_attempts() {
    let mut t = Transport::new(ReconnectPolicy { max_attempts: 2, base_delay_ms: 10, max_delay_ms: 15 });
    assert!(t.start());
    assert!(matches!(t.on_error(), Reaction::Retry(10)));
    assert_eq!(t.state(), ConnectionState::Reconnecting);
    assert!(t.retry());
    assert_eq!(t.state(), ConnectionState::Connecting);
    assert!(matches!(t.on_frame("{\"event\":\"other\",\"data\":\"x\"}"), Reaction::Retry(15)));
    assert!(t.retry());
    assert!(matches!(t.on_error(), Reaction::GiveUp));
    assert_eq!(t.state(), ConnectionState::Failed);
    assert!(!t.retry());
    assert!(t.start());
    assert_eq!(t.state(), ConnectionState::Connecting);
}

#[test]
fn keepalives_are_answered_and_sent() {
    let mut client = connected_client();
    match client.handle_frame(r#"{"event":"pusher:ping","data":"{}"}"#) {
        Reaction::Reply(f) => assert_eq!(f, r#"{"event":"pusher:pong","data":{}}"#),
        other => panic!("unexpected {:?}", other),
    }
    match client.handle_idle() {
        Reaction::Reply(f) => assert_eq!(f, r#"{"event":"pusher:ping","data":{}}"#),
        other => panic!("unexpected {:?}", other),
    }
    assert!(matches!(client.handle_frame(r#"{"event":"pusher:pong","data":"{}"}"#), Reaction::Ignore));
    assert!(matches!(client.handle_idle(), Reaction::Reply(_)));
    assert!(matches!(client.handle_idle(), Reaction::Retry(_)));
    assert_eq!(client.get_connection_state(), ConnectionState::Reconnecting);
    assert_eq!(client.get_socket_id().unwrap(), None);
}

#[test]
fn malformed_frames_are_dropped() {
    let mut client = connected_client();
    assert!(matches!(client.handle_frame("not json"), Reaction::Ignore));
    assert!(matches!(client.handle_frame(r#"{"data":"x"}"#), Reaction::Ignore));
    assert_eq!(client.get_connection_state(), ConnectionState::Connected);
}

#[test]
fn handshake_without_socket_id_fails() {
    let mut client = PusherClient::new(config()).unwrap();
    client.connect().unwrap();
    let r = client.handle_frame(r#"{"event":"pusher:connection_established","data":"{}"}"#);
    assert!(matches!(r, Reaction::Retry(1000)));
    assert_eq!(client.get_socket_id().unwrap(), None);
}

#[test]
fn disconnect_clears_socket_id() {
    let mut client = connected_client();
    assert!(client.disconnect());
    assert_eq!(client.get_connection_state(), ConnectionState::Disconnected);
    assert_eq!(client.get_socket_id().unwrap(), None);
    assert!(!client.disconnect());
}

#[test]
fn api_result_maps_status() {
    assert!(api_result(200, "").is_ok());
    assert!(api_result(299, "").is_ok());
    match api_result(404, "not found") {
        Err(PusherError::ApiError(m)) => assert_eq!(m, "404 - not found"),
        other => panic!("unexpected {:?}", other),
    }
    assert!(api_result(199, "").is_err());
}

#[test]
fn channel_kinds_follow_prefix() {
    assert_eq!(Channel::new("orders").channel_type, ChannelType::Public);
    assert_eq!(Channel::new("private-x").channel_type, ChannelType::Private);
    assert_eq!(Channel::new("presence-x").channel_type, ChannelType::Presence);
    assert_eq!(Channel::new("private-encrypted-x").channel_type, ChannelType::PrivateEncrypted);
}

#[test]
fn hex_and_decimal_rendering() {
    assert_eq!(pusher_rs::text::to_hex(&vec![0x00, 0x0f, 0xab, 0xff]), "000fabff");
    assert_eq!(pusher_rs::text::to_decimal(0), "0");
    assert_eq!(pusher_rs::text::to_decimal(1700000000), "1700000000");
    assert_eq!(pusher_rs::text::to_decimal(u64::MAX), "18446744073709551615");
    assert!(pusher_rs::text::starts_with("private-encrypted-a", "private-"));
    assert!(!pusher_rs::text::starts_with("priv", "private-"));
}

#[test]
fn encrypt_data_checks_key_length() {
    let client = PusherClient::new(config()).unwrap();
    let key = client.generate_shared_secret("private-encrypted-orders");
    assert_eq!(key, derive_secret("secret", "private-encrypted-orders"));
    let sealed = client.encrypt_data("hello", &key).unwrap();
    assert_eq!(decrypt(&sealed, &key).unwrap(), "hello");
    assert!(matches!(client.encrypt_data("hello", &vec![1u8; 16]), Err(PusherError::EncryptionError(_))));
}

#[test]
fn seal_with_iv_puts_vector_first() {
    let key = derive_secret("secret", "private-encrypted-orders");
    let iv1: Vec<u8> = (0u8..16).collect();
    let iv2: Vec<u8> = (1u8..17).collect();
    for data in ["", "{\"id\":1}", "0123456789abcdef", "0123456789abcdefg"] {
        let s1 = seal_with_iv(data, &key, iv1.clone());
        let raw = base64::engine::general_purpose::STANDARD.decode(&s1).unwrap();
        assert_eq!(&raw[..16], &iv1[..]);
        assert_eq!(raw.len(), 16 + 16 * (data.len() / 16 + 1));
        assert_eq!(decrypt(&s1, &key).unwrap(), data);
        assert_eq!(s1, seal_with_iv(data, &key, iv1.clone()));
        assert_ne!(s1, seal_with_iv(data, &key, iv2.clone()));
    }
}

#[test]
fn invalid_json_is_reported_before_anything_else() {
    let mut client = connected_client();
    client.subscribe_encrypted("private-encrypted-orders").unwrap();
    assert!(matches!(client.trigger("orders", "e", "nope"), Err(PusherError::JsonError(_))));
    assert!(matches!(
        client.trigger_encrypted("private-encrypted-none", "e", "{}"),
        Err(PusherError::ChannelError(_))
    ));
    assert!(client.trigger_encrypted("private-encrypted-orders", "e", "not json either").is_ok());
}

#[test]
fn frames_of_unknown_shape_are_dropped() {
    let mut client = connected_client();
    assert!(matches!(
        client.handle_frame(r#"{"event":"e","channel":null,"data":"x"}"#),
        Reaction::Ignore
    ));
    assert!(matches!(client.handle_frame(r#"{"event":42,"data":"x"}"#), Reaction::Ignore));
    assert!(matches!(client.handle_frame(r#"{"event":"e","channel":"c"}"#), Reaction::Ignore));
    let e = delivered(client.handle_frame(r#"{"event":"e","data":{"k":1}}"#));
    assert_eq!(e.channel, None);
    assert_eq!(e.data, r#"{"k":1}"#);
    assert_eq!(client.get_connection_state(), ConnectionState::Connected);
}
