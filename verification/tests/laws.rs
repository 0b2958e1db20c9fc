use walle_core::action::{Action, GetLatestEvents, GetUserInfo, SendMessage, TypedAction};
use walle_core::echo::{EchoMap, EchoToken};
use walle_core::event::{Heartbeat, Message, Status};
use walle_core::segment::MessageSegment;
use walle_core::error::WalleError;
use walle_core::lifecycle::OneBot;
use walle_core::util::{auth_header_value, new_uuid, timestamp_nano, ContentType};
use walle_core::value::{DynValue, ValueMap};

fn map_of(entries: Vec<(&str, DynValue)>) -> ValueMap {
    let mut m = ValueMap::new();
    for (k, v) in entries {
        m.insert(k.to_string(), v);
    }
    m
}

fn sample_value() -> DynValue {
    DynValue::Obj(map_of(vec![
        ("null", DynValue::Null),
        ("flag", DynValue::Bool(true)),
        ("count", DynValue::Int(-42)),
        ("ratio", DynValue::Float(serde_json::Number::from_f64(2.5).unwrap())),
        ("name", DynValue::Str("walle".to_string())),
        (
            "items",
            DynValue::Arr(vec![DynValue::Int(1), DynValue::Str("two".to_string())]),
        ),
        ("inner", DynValue::Obj(map_of(vec![("k", DynValue::Int(7))]))),
    ]))
}

// Round trip: decoding an encoding yields an equal value, in both wire forms.
#[test]
fn round_trip_text_and_binary() {
    let v = sample_value();
    let text = v.json_encode();
    assert_eq!(DynValue::json_decode(&text).unwrap(), v);
    let bytes = v.rmp_encode();
    assert_eq!(DynValue::rmp_decode(&bytes).unwrap(), v);
}

// Numeric subtype survives a decode-encode-decode cycle: the integer stays an
// integer, the float keeps its exact sub-second precision.
#[test]
fn numeric_subtype_survives() {
    let doc = r#"{"time":1632847927.599013,"interval":5000}"#;
    let v = DynValue::json_decode(doc).unwrap();
    let again = DynValue::json_decode(&v.json_encode()).unwrap();
    assert_eq!(again, v);
    let mut m = match again {
        DynValue::Obj(m) => m,
        other => panic!("expected a map, got {:?}", other),
    };
    match m.remove("time").unwrap() {
        DynValue::Float(n) => assert_eq!(n.as_f64().unwrap(), 1632847927.599013),
        other => panic!("time lost its float subtype: {:?}", other),
    }
    assert_eq!(m.remove("interval").unwrap(), DynValue::Int(5000));
}

// The text encoding is a real JSON document, not the input handed back.
#[test]
fn text_encoding_is_json() {
    let v = DynValue::Obj(map_of(vec![("a", DynValue::Int(1))]));
    let text = v.json_encode();
    let reparsed: serde_json::Value = serde_json::from_str(&text).unwrap();
    assert_eq!(reparsed["a"].as_i64(), Some(1));
    assert_eq!(text, "{\"a\":1}");
}

// The binary encoding is a real MessagePack document.
#[test]
fn binary_encoding_is_msgpack() {
    let v = DynValue::Int(5);
    let bytes = v.rmp_encode();
    assert_eq!(bytes, vec![5u8]);
}

// A malformed document fails with a decode diagnostic, not a panic.
#[test]
fn decode_failure_is_clean() {
    match DynValue::json_decode("{not json") {
        Err(WalleError::Decode(_)) => {},
        other => panic!("expected a decode diagnostic, got {:?}", other),
    }
    match DynValue::rmp_decode(&[0xc1]) {
        Err(WalleError::Decode(_)) => {},
        other => panic!("expected a decode diagnostic, got {:?}", other),
    }
}

// Optional-field narrowing: an absent optional field narrows to no value and
// the conversion still succeeds; a present-but-wrong-shape field fails with a
// type mismatch.
#[test]
fn optional_field_narrowing() {
    let mut m = map_of(vec![("present", DynValue::Str("x".to_string()))]);
    assert_eq!(m.try_remove_downcast_str("absent").unwrap(), None);
    assert_eq!(
        m.try_remove_downcast_str("present").unwrap(),
        Some("x".to_string())
    );
    let mut m = map_of(vec![("present", DynValue::Int(3))]);
    match m.try_remove_downcast_str("present") {
        Err(WalleError::ValueTypeNotMatch(exp, act)) => {
            assert_eq!(exp, "str");
            assert_eq!(act, "int");
        },
        other => panic!("expected a type mismatch, got {:?}", other),
    }
}

// Required-field narrowing: an absent required field is a missing-key error.
#[test]
fn missing_required_key() {
    let mut m = ValueMap::new();
    match m.remove_downcast_str("id") {
        Err(WalleError::MapMissedKey(k)) => assert_eq!(k, "id"),
        other => panic!("expected a missing-key error, got {:?}", other),
    }
}

// Reserved field remapping: the type tag and the implementation name travel
// under the wire keys `type` and `impl`.
#[test]
fn reserved_key_remapping() {
    let ev = walle_core::event::Event {
        id: "i".to_string(),
        implt: "my_impl".to_string(),
        platform: "p".to_string(),
        self_id: "s".to_string(),
        time: DynValue::Int(1),
        ty: "meta".to_string(),
        detail_type: "d".to_string(),
        sub_type: "".to_string(),
        extra: ValueMap::new(),
    };
    let text = ev.to_value().json_encode();
    let doc: serde_json::Value = serde_json::from_str(&text).unwrap();
    assert_eq!(doc["impl"].as_str(), Some("my_impl"));
    assert_eq!(doc["type"].as_str(), Some("meta"));
    let back =
        walle_core::event::Event::from_value(DynValue::json_decode(&text).unwrap()).unwrap();
    assert_eq!(back.implt, "my_impl");
    assert_eq!(back.ty, "meta");
}

// Enum dispatch: an unmatched tag fails with unsupported-tag carrying the
// original string.
#[test]
fn unsupported_tag() {
    let a = Action { action: "no_such_action".to_string(), params: ValueMap::new() };
    match TypedAction::from_action(a) {
        Err(WalleError::UnsupportedTag(tag)) => assert_eq!(tag, "no_such_action"),
        other => panic!("expected an unsupported-tag error, got {:?}", other),
    }
}

// The lower-snake normalization that names each variant's wire tag.
#[test]
fn snake_case_tags() {
    assert_eq!(walle_core::bridge::snake_case("GetUserInfo"), "get_user_info");
    assert_eq!(
        walle_core::bridge::snake_case("GetLatestEvents"),
        "get_latest_events"
    );
    assert_eq!(walle_core::bridge::snake_case("Text"), "text");
    assert_eq!(walle_core::bridge::snake_case("already_snake"), "already_snake");
}

// Lifecycle: a fresh orchestrator starts; a second start fails with
// already-started; shutdown before start fails with not-started; after a
// clean shutdown it reports stopped and starts again.
#[test]
fn lifecycle() {
    let mut ob = OneBot::new((), ());
    assert!(!ob.started());
    assert_eq!(ob.shutdown(), Err(WalleError::NotStarted));
    assert_eq!(ob.get_signal_rx(), Err(WalleError::NotStarted));
    let plan = ob.start(true).unwrap();
    assert!(plan.action_first);
    assert!(ob.started());
    assert!(ob.get_signal_rx().is_ok());
    assert_eq!(ob.start(false), Err(WalleError::AlreadyStarted));
    assert!(ob.shutdown().is_ok());
    assert!(!ob.started());
    assert!(ob.start(false).is_ok());
}

// Correlation: a response whose token matches a pending send fulfills that
// slot exactly once; an unregistered token affects nothing.
#[test]
fn correlation() {
    let mut echo = EchoMap::new();
    echo.register(EchoToken::S("req-1".to_string()));
    echo.register(EchoToken::I(7));
    let t = EchoToken::S("req-1".to_string());
    assert_eq!(echo.fulfill(&t, "payload"), Some("payload"));
    assert_eq!(echo.fulfill(&t, "payload again"), None);
    let unknown = EchoToken::S("req-2".to_string());
    assert_eq!(echo.fulfill(&unknown, "dropped"), None);
    let t7 = EchoToken::I(7);
    echo.cancel(&t7);
    assert_eq!(echo.fulfill(&t7, "cancelled"), None);
}

// Content negotiation recognizes exactly the two media types.
#[test]
fn content_negotiation() {
    assert_eq!(ContentType::new("application/json"), Some(ContentType::Json));
    assert_eq!(ContentType::new("application/msgpack"), Some(ContentType::MsgPack));
    assert_eq!(ContentType::new("text/plain"), None);
    assert_eq!(ContentType::Json.media_type(), "application/json");
    assert_eq!(ContentType::MsgPack.media_type(), "application/msgpack");
}

// The authorization convenience renders a bearer token, or nothing.
#[test]
fn auth_header() {
    assert_eq!(
        auth_header_value(&Some("sometoken".to_string())),
        Some("Bearer sometoken".to_string())
    );
    assert_eq!(auth_header_value(&None), None);
}

// Fresh identifiers have the hyphenated 36-character shape and the clock
// moves them along.
#[test]
fn identifiers() {
    let u = new_uuid();
    assert_eq!(u.len(), 36);
    assert_eq!(u.matches('-').count(), 4);
    let t1 = timestamp_nano();
    let t2 = timestamp_nano();
    assert!(t2 >= t1);
}

// Byte strings travel as arrays of integers in both wire forms.
#[test]
fn bytes_on_the_wire() {
    let v = DynValue::Bytes(vec![1, 2, 255]);
    let text = v.json_encode();
    assert_eq!(text, "[1,2,255]");
    let back = DynValue::json_decode(&text).unwrap();
    assert_eq!(
        back,
        DynValue::Arr(vec![DynValue::Int(1), DynValue::Int(2), DynValue::Int(255)])
    );
}

// Last insertion for a key wins; insertion order is kept.
#[test]
fn map_last_write_wins() {
    let mut m = ValueMap::new();
    m.insert("a".to_string(), DynValue::Int(1));
    m.insert("b".to_string(), DynValue::Int(2));
    m.insert("a".to_string(), DynValue::Int(3));
    assert_eq!(m.len(), 2);
    assert_eq!(m.get("a"), Some(&DynValue::Int(3)));
    assert_eq!(DynValue::Obj(m).json_encode(), "{\"b\":2,\"a\":3}");
}

// The response envelope round-trips through both wire forms.
#[test]
fn resp_round_trip() {
    let resp = walle_core::resp::Resp {
        status: "ok".to_string(),
        retcode: 0,
        data: DynValue::Obj(map_of(vec![("user_id", DynValue::Str("abab".to_string()))])),
        message: "".to_string(),
    };
    let text = resp.to_value().json_encode();
    let back = walle_core::resp::Resp::from_value(DynValue::json_decode(&text).unwrap()).unwrap();
    let expected = walle_core::resp::Resp {
        status: "ok".to_string(),
        retcode: 0,
        data: DynValue::Obj(map_of(vec![("user_id", DynValue::Str("abab".to_string()))])),
        message: "".to_string(),
    };
    assert_eq!(back, expected);
    let bytes = expected.to_value().rmp_encode();
    let back = walle_core::resp::Resp::from_value(DynValue::rmp_decode(&bytes).unwrap()).unwrap();
    assert_eq!(back.status, "ok");
    assert_eq!(back.retcode, 0);
}

// Decoding the same event document with its keys in another order yields the
// same envelope.
#[test]
fn key_order_insensitive_envelope() {
    let a = r#"{"id":"1","impl":"x","platform":"p","self_id":"s","time":5,
        "type":"meta","detail_type":"d","sub_type":"","k":1}"#;
    let b = r#"{"k":1,"sub_type":"","detail_type":"d","type":"meta","time":5,
        "self_id":"s","platform":"p","impl":"x","id":"1"}"#;
    let ea = walle_core::event::Event::from_value(DynValue::json_decode(a).unwrap()).unwrap();
    let eb = walle_core::event::Event::from_value(DynValue::json_decode(b).unwrap()).unwrap();
    assert_eq!(ea, eb);
}

struct TestAh;
struct TestEh;

impl walle_core::lifecycle::ActionHandler<String, String, String> for TestAh {
    fn call_spec(&self, action: String) -> Result<String, WalleError> {
        self.call(action)
    }

    fn before_call_event_spec(&self, event: String) -> Result<String, WalleError> {
        self.before_call_event(event)
    }

    fn after_call_event_spec(&self) -> Result<(), WalleError> {
        self.after_call_event()
    }

    fn call(&self, action: String) -> Result<String, WalleError> {
        Ok(format!("done:{}", action))
    }

    fn before_call_event(&self, event: String) -> Result<String, WalleError> {
        if event == "vetoed" {
            Err(WalleError::Decode("vetoed".to_string()))
        } else {
            Ok(format!("filtered:{}", event))
        }
    }

    fn after_call_event(&self) -> Result<(), WalleError> {
        Ok(())
    }

    fn shutdown(&self) {}
}

impl walle_core::lifecycle::EventHandler<String, String, String> for TestEh {
    fn call_spec(&self, event: String) -> Result<(), WalleError> {
        self.call(event)
    }

    fn before_call_action_spec(&self, action: String) -> Result<String, WalleError> {
        self.before_call_action(action)
    }

    fn after_call_action_spec(&self, resp: String) -> Result<String, WalleError> {
        self.after_call_action(resp)
    }

    fn call(&self, event: String) -> Result<(), WalleError> {
        if event.starts_with("filtered:") {
            Ok(())
        } else {
            Err(WalleError::Decode("unfiltered".to_string()))
        }
    }

    fn before_call_action(&self, action: String) -> Result<String, WalleError> {
        Ok(action)
    }

    fn after_call_action(&self, resp: String) -> Result<String, WalleError> {
        Ok(format!("seen:{}", resp))
    }

    fn shutdown(&self) {}
}

// The dispatch pipelines: each stage runs in order, and the first failing
// stage aborts the rest and is returned.
#[test]
fn dispatch_pipelines() {
    let ob = OneBot::new(TestAh, TestEh);
    assert_eq!(ob.handle_event("hello".to_string()), Ok(()));
    assert_eq!(
        ob.handle_event("vetoed".to_string()),
        Err(WalleError::Decode("vetoed".to_string()))
    );
    assert_eq!(
        ob.handle_action("ping".to_string()),
        Ok("seen:done:ping".to_string())
    );
}

// Widening then narrowing each typed facet restores it, optional fields
// present or absent.
#[test]
fn facet_round_trips() {
    let gle = GetLatestEvents { limit: 7, timeout: 3 };
    assert_eq!(
        GetLatestEvents::from_map(gle.to_map()).unwrap(),
        GetLatestEvents { limit: 7, timeout: 3 }
    );
    let gui = GetUserInfo { user_id: "u1".to_string() };
    assert_eq!(
        GetUserInfo::from_map(gui.to_map()).unwrap(),
        GetUserInfo { user_id: "u1".to_string() }
    );
    let hb = Heartbeat { interval: 9, status: Status { good: true, online: false } };
    assert_eq!(
        Heartbeat::from_map(hb.to_map()).unwrap(),
        Heartbeat { interval: 9, status: Status { good: true, online: false } }
    );
    let seg = || MessageSegment {
        ty: "text".to_string(),
        data: map_of(vec![("text", DynValue::Str("hi".to_string()))]),
    };
    let sm = SendMessage {
        detail_type: "group".to_string(),
        group_id: Some("g".to_string()),
        user_id: None,
        channel_id: None,
        guild_id: Some("w".to_string()),
        message: vec![seg()],
    };
    let back = SendMessage::from_map(sm.to_map()).unwrap();
    assert_eq!(back.detail_type, "group");
    assert_eq!(back.group_id, Some("g".to_string()));
    assert_eq!(back.user_id, None);
    assert_eq!(back.channel_id, None);
    assert_eq!(back.guild_id, Some("w".to_string()));
    assert_eq!(back.message, vec![seg()]);
    let msg = Message {
        message: vec![seg()],
        message_id: "m1".to_string(),
        alt_message: "hi".to_string(),
        user_id: "u1".to_string(),
    };
    let back = Message::from_map(msg.to_map()).unwrap();
    assert_eq!(back.message_id, "m1");
    assert_eq!(back.message, vec![seg()]);
}

// The dispatch delegates a matched tag to that variant's narrowing: success
// is owed exactly when the parameters narrow, and the payload is the
// narrowing's result.
#[test]
fn dispatch_delegates() {
    let a = Action {
        action: "get_latest_events".to_string(),
        params: map_of(vec![
            ("limit", DynValue::Int(4)),
            ("timeout", DynValue::Int(1)),
        ]),
    };
    assert_eq!(
        TypedAction::from_action(a).unwrap(),
        TypedAction::GetLatestEvents(GetLatestEvents { limit: 4, timeout: 1 })
    );
    let bad = Action {
        action: "get_latest_events".to_string(),
        params: map_of(vec![("limit", DynValue::Int(4))]),
    };
    match TypedAction::from_action(bad) {
        Err(WalleError::MapMissedKey(k)) => assert_eq!(k, "timeout"),
        other => panic!("expected a missing-key error, got {:?}", other),
    }
}

// A fresh identifier has the full canonical shape.
#[test]
fn identifier_shape() {
    let u = new_uuid();
    let chars: Vec<char> = u.chars().collect();
    assert_eq!(chars.len(), 36);
    for (i, c) in chars.iter().enumerate() {
        if i == 8 || i == 13 || i == 18 || i == 23 {
            assert_eq!(*c, '-');
        } else {
            assert!(c.is_ascii_hexdigit() && !c.is_ascii_uppercase());
        }
    }
}
