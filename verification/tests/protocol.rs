use walle_core::action::{Action, GetLatestEvents, GetUserInfo, SendMessage, TypedAction};
use walle_core::event::{Event, Heartbeat, Message, Status};
use walle_core::segment::{BaseSegment, Image, MessageSegment, Text};
use walle_core::value::{DynValue, ValueMap};

fn map_of(entries: Vec<(&str, DynValue)>) -> ValueMap {
    let mut m = ValueMap::new();
    for (k, v) in entries {
        m.insert(k.to_string(), v);
    }
    m
}

fn s(v: &str) -> DynValue {
    DynValue::Str(v.to_string())
}

fn float(v: f64) -> DynValue {
    DynValue::Float(serde_json::Number::from_f64(v).unwrap())
}

#[test]
fn event() {
    let doc1 = r#"{
        "id": "b6e65187-5ac0-489c-b431-53078e9d2bbb",
        "impl": "go_onebot_qq",
        "platform": "qq",
        "self_id": "123234",
        "time": 1632847927.599013,
        "type": "meta",
        "detail_type": "heartbeat",
        "sub_type": "",
        "interval": 5000,
        "status": {
            "good": true,
            "online": true
        }
    }"#;
    let expected1 = Event {
        id: "b6e65187-5ac0-489c-b431-53078e9d2bbb".to_string(),
        implt: "go_onebot_qq".to_string(),
        platform: "qq".to_string(),
        self_id: "123234".to_string(),
        time: float(1632847927.599013),
        ty: "meta".to_string(),
        detail_type: "heartbeat".to_string(),
        sub_type: "".to_string(),
        extra: map_of(vec![
            ("interval", DynValue::Int(5000)),
            (
                "status",
                DynValue::Obj(map_of(vec![
                    ("good", DynValue::Bool(true)),
                    ("online", DynValue::Bool(true)),
                ])),
            ),
        ]),
    };
    let ev = Event::from_value(DynValue::json_decode(doc1).unwrap()).unwrap();
    assert_eq!(ev, expected1);

    // Re-encoding and re-decoding reproduces an equal event.
    let text = ev.to_value().json_encode();
    let ev2 = Event::from_value(DynValue::json_decode(&text).unwrap()).unwrap();
    assert_eq!(ev2, expected1);

    // The narrowed heartbeat facet.
    let hb = Heartbeat::from_map(ev2.extra).unwrap();
    assert_eq!(
        hb,
        Heartbeat { interval: 5000, status: Status { good: true, online: true } }
    );

    let doc2 = r#"{
        "id": "b6e65187-5ac0-489c-b431-53078e9d2bbb",
        "impl": "go_onebot_qq",
        "platform": "qq",
        "self_id": "123234",
        "time": 1632847927,
        "type": "message",
        "detail_type": "private",
        "sub_type": "",
        "message_id": "6283",
        "message": [
            {
                "type": "text",
                "data": {
                    "text": "OneBot is not a bot"
                }
            },
            {
                "type": "image",
                "data": {
                    "file_id": "e30f9684-3d54-4f65-b2da-db291a477f16"
                }
            }
        ],
        "alt_message": "OneBot is not a bot[图片]",
        "user_id": "123456788"
    }"#;
    let expected2 = Event {
        id: "b6e65187-5ac0-489c-b431-53078e9d2bbb".to_string(),
        implt: "go_onebot_qq".to_string(),
        platform: "qq".to_string(),
        self_id: "123234".to_string(),
        time: DynValue::Int(1632847927),
        ty: "message".to_string(),
        detail_type: "private".to_string(),
        sub_type: "".to_string(),
        extra: map_of(vec![
            ("message_id", s("6283")),
            (
                "message",
                DynValue::Arr(vec![
                    DynValue::Obj(map_of(vec![
                        ("type", s("text")),
                        ("data", DynValue::Obj(map_of(vec![("text", s("OneBot is not a bot"))]))),
                    ])),
                    DynValue::Obj(map_of(vec![
                        ("type", s("image")),
                        (
                            "data",
                            DynValue::Obj(map_of(vec![(
                                "file_id",
                                s("e30f9684-3d54-4f65-b2da-db291a477f16"),
                            )])),
                        ),
                    ])),
                ]),
            ),
            ("alt_message", s("OneBot is not a bot[图片]")),
            ("user_id", s("123456788")),
        ]),
    };
    let ev = Event::from_value(DynValue::json_decode(doc2).unwrap()).unwrap();
    assert_eq!(ev, expected2);
    let text = ev.to_value().json_encode();
    let ev2 = Event::from_value(DynValue::json_decode(&text).unwrap()).unwrap();
    assert_eq!(ev2, expected2);

    // The narrowed message facet.
    let msg = Message::from_map(ev2.extra).unwrap();
    assert_eq!(
        msg,
        Message {
            message: vec![
                MessageSegment {
                    ty: "text".to_string(),
                    data: map_of(vec![("text", s("OneBot is not a bot"))]),
                },
                MessageSegment {
                    ty: "image".to_string(),
                    data: map_of(vec![("file_id", s("e30f9684-3d54-4f65-b2da-db291a477f16"))]),
                },
            ],
            message_id: "6283".to_string(),
            alt_message: "OneBot is not a bot[图片]".to_string(),
            user_id: "123456788".to_string(),
        }
    );
}

#[test]
fn action() {
    let doc1 = r#"{
        "action": "get_latest_events",
        "params": {
            "limit": 100,
            "timeout": 0
        }
    }"#;
    let expected1 = Action {
        action: "get_latest_events".to_string(),
        params: map_of(vec![
            ("limit", DynValue::Int(100)),
            ("timeout", DynValue::Int(0)),
        ]),
    };
    let a = Action::from_value(DynValue::json_decode(doc1).unwrap()).unwrap();
    assert_eq!(a, expected1);
    let text = a.to_value().json_encode();
    let a2 = Action::from_value(DynValue::json_decode(&text).unwrap()).unwrap();
    assert_eq!(a2, expected1);
    let typed = GetLatestEvents::from_map(a2.params).unwrap();
    assert_eq!(typed, GetLatestEvents { limit: 100, timeout: 0 });

    let doc2 = r#"{
        "action": "send_message",
        "params": {
            "detail_type": "group",
            "group_id": "12467",
            "message": [
                {
                    "type": "text",
                    "data": {
                        "text": "这是一条测试消息"
                    }
                }
            ]
        }
    }"#;
    let expected2 = Action {
        action: "send_message".to_string(),
        params: map_of(vec![
            ("detail_type", s("group")),
            ("group_id", s("12467")),
            (
                "message",
                DynValue::Arr(vec![DynValue::Obj(map_of(vec![
                    ("type", s("text")),
                    ("data", DynValue::Obj(map_of(vec![("text", s("这是一条测试消息"))]))),
                ]))]),
            ),
        ]),
    };
    let a = Action::from_value(DynValue::json_decode(doc2).unwrap()).unwrap();
    assert_eq!(a, expected2);
    let text = a.to_value().json_encode();
    let a2 = Action::from_value(DynValue::json_decode(&text).unwrap()).unwrap();
    assert_eq!(a2, expected2);
    let typed = SendMessage::from_map(a2.params).unwrap();
    assert_eq!(
        typed,
        SendMessage {
            detail_type: "group".to_string(),
            group_id: Some("12467".to_string()),
            user_id: None,
            channel_id: None,
            guild_id: None,
            message: vec![walle_core::segment::MessageSegment {
                ty: "text".to_string(),
                data: map_of(vec![("text", s("这是一条测试消息"))]),
            }],
        }
    );
}

#[test]
fn action_resp() {}

#[test]
fn segment() {
    let v1 = DynValue::Obj(map_of(vec![
        ("type", s("text")),
        ("data", DynValue::Obj(map_of(vec![("text", s("这是一条测试消息"))]))),
    ]));
    let expected_seg1 = MessageSegment {
        ty: "text".to_string(),
        data: map_of(vec![("text", s("这是一条测试消息"))]),
    };
    let seg1 = MessageSegment::from_value(v1).unwrap();
    assert_eq!(seg1, expected_seg1);
    let t = Text::from_segment(seg1).unwrap();
    assert_eq!(t, Text { text: "这是一条测试消息".to_string() });

    let v2 = DynValue::Obj(map_of(vec![
        ("type", s("image")),
        (
            "data",
            DynValue::Obj(map_of(vec![
                ("file_id", s("e30f9684-3d54-4f65-b2da-db291a477f16")),
                ("url", s("https://example.com")),
            ])),
        ),
    ]));
    let expected_seg2 = MessageSegment {
        ty: "image".to_string(),
        data: map_of(vec![
            ("file_id", s("e30f9684-3d54-4f65-b2da-db291a477f16")),
            ("url", s("https://example.com")),
        ]),
    };
    let seg2 = MessageSegment::from_value(v2).unwrap();
    assert_eq!(seg2, expected_seg2);
    let base = BaseSegment::<Image>::from_segment(seg2).unwrap();
    assert_eq!(
        base,
        BaseSegment {
            segment: Image { file_id: "e30f9684-3d54-4f65-b2da-db291a477f16".to_string() },
            extra: map_of(vec![("url", s("https://example.com"))]),
        }
    );
}

#[test]
fn valuemap_test() {
    let mut map = ValueMap::new();
    map.insert("key1".to_owned(), DynValue::Null);
    println!("{}", DynValue::Obj(map).json_encode());
    let d = r#"{"key":3}"#;
    let map = DynValue::json_decode(d).unwrap();
    println!("{:?}", map);
}

#[test]
fn enum_action() {
    let raw_action = Action {
        action: "get_user_info".to_string(),
        params: map_of(vec![("user_id", s("abab"))]),
    };
    let action = TypedAction::from_action(raw_action).unwrap();
    assert_eq!(
        action,
        TypedAction::GetUserInfo(GetUserInfo { user_id: "abab".to_string() })
    );
}

#[test]
fn option_action() {
    let a = Action::from_value(
        DynValue::json_decode(r#"{"action":"my_seg", "params": {"text": "text"}}"#).unwrap(),
    )
    .unwrap();
    let mut params = a.params;
    println!("{:?}", params.try_remove_downcast_str("text"));
    let a = Action::from_value(
        DynValue::json_decode(r#"{"action":"my_seg", "params": {}}"#).unwrap(),
    )
    .unwrap();
    let mut params = a.params;
    println!("{:?}", params.try_remove_downcast_str("text"));
}
