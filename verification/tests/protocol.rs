//! Decoding and encoding of protocol lines.

use pinix::action::{Action, ActionType, BuildStepId, ResultFields, StartFields};
use pinix::decode::{decode_envelope, encode_event, type_event, DecodeError, Field, PayloadShape};

#[test]
fn test_parse_start() {
    let act = Action::parse(
        r#"{"action":"start","id":3239822680391680,"level":6,"parent":0,"text":"querying info about missing paths","type":0}"#,
    )
    .unwrap();

    assert_eq!(
        act,
        Action::Start {
            start_type: StartFields::Unknown,
            id: 3239822680391680.into(),
            level: 6,
            parent: 0.into(),
            text: "querying info about missing paths".into(),
        }
    );
}

#[test]
fn test_parse_result() {
    let act =
        Action::parse(r#"{"action":"result","fields":[101,4242],"id":3239822680391681,"type":106}"#)
            .unwrap();

    assert_eq!(
        act,
        Action::Result {
            id: 3239822680391681.into(),
            fields: ResultFields::SetExpected {
                action: ActionType::FileTransfer,
                expected: 4242,
            }
        }
    );
}

#[test]
fn test_parse_stop() {
    let act = Action::parse(r#"{"action":"stop","id":3239822680391838}"#).unwrap();

    assert_eq!(
        act,
        Action::Stop {
            id: 3239822680391838.into()
        }
    );
}

#[test]
fn build_start_fields_keep_payload_order() {
    let act = Action::parse(
        r#"{"action":"start","id":7,"level":1,"parent":0,"text":"building","type":105,"fields":["the-target","the-source",11,22]}"#,
    )
    .unwrap();

    assert_eq!(
        act,
        Action::Start {
            start_type: StartFields::Build {
                target: "the-target".into(),
                source: "the-source".into(),
                val1: 11,
                val2: 22,
            },
            id: 7.into(),
            level: 1,
            parent: 0.into(),
            text: "building".into(),
        }
    );
}

#[test]
fn progress_fields_decode_positionally() {
    let act = Action::parse(r#"{"action":"result","id":9,"type":105,"fields":[1,2,3,4]}"#).unwrap();
    assert_eq!(
        act,
        Action::Result {
            id: 9.into(),
            fields: ResultFields::Progress {
                done: 1,
                expected: 2,
                running: 3,
                failed: 4,
            }
        }
    );
}

#[test]
fn malformed_text_is_rejected() {
    assert_eq!(Action::parse("not json at all"), Err(DecodeError::Malformed));
    assert_eq!(Action::parse(r#"{"action":"frobnicate","id":1}"#), Err(DecodeError::Malformed));
    assert_eq!(
        Action::parse(r#"{"action":"stop","id":"high"}"#),
        Err(DecodeError::Malformed)
    );
}

#[test]
fn missing_fields_are_named() {
    assert_eq!(
        Action::parse(r#"{"action":"stop"}"#),
        Err(DecodeError::MissingField(Field::Id))
    );
    assert_eq!(
        Action::parse(r#"{"action":"start","level":0,"parent":0,"text":"x","type":0}"#),
        Err(DecodeError::MissingField(Field::Id))
    );
    assert_eq!(
        Action::parse(r#"{"action":"start","id":1,"level":0,"parent":0,"text":"x"}"#),
        Err(DecodeError::MissingField(Field::Type))
    );
    assert_eq!(
        Action::parse(r#"{"action":"msg","level":3}"#),
        Err(DecodeError::MissingField(Field::Msg))
    );
    assert_eq!(
        Action::parse(r#"{"action":"result","id":1,"type":105}"#),
        Err(DecodeError::MissingField(Field::Fields))
    );
}

#[test]
fn shape_mismatches_name_the_expected_shape() {
    assert_eq!(
        Action::parse(r#"{"action":"start","id":1,"level":0,"parent":0,"text":"x","type":105,"fields":["only-one"]}"#),
        Err(DecodeError::InvalidFields(PayloadShape::Build))
    );
    assert_eq!(
        Action::parse(r#"{"action":"result","id":1,"type":105,"fields":[1,2,3]}"#),
        Err(DecodeError::InvalidFields(PayloadShape::Progress))
    );
}

#[test]
fn unimplemented_codes_are_reported() {
    for code in [100u8, 102, 103, 107] {
        let line = format!(r#"{{"action":"result","id":1,"type":{code},"fields":[""]}}"#);
        assert_eq!(Action::parse(&line), Err(DecodeError::Unimplemented(code)));
    }
}

#[test]
fn unknown_code_tolerance() {
    // An unknown result code names itself in the error...
    assert_eq!(
        Action::parse(r#"{"action":"result","id":1,"type":109,"fields":[1]}"#),
        Err(DecodeError::UnknownCode(109))
    );
    // ...and later, well-formed lines still decode.
    let act = Action::parse(r#"{"action":"stop","id":4}"#).unwrap();
    assert_eq!(act, Action::Stop { id: 4.into() });
}

#[test]
fn unknown_start_kind_is_tolerated() {
    let act = Action::parse(
        r#"{"action":"start","id":1,"level":0,"parent":0,"text":"novel work","type":250}"#,
    )
    .unwrap();
    assert_eq!(
        act,
        Action::Start {
            start_type: StartFields::Unknown,
            id: 1.into(),
            level: 0,
            parent: 0.into(),
            text: "novel work".into(),
        }
    );
}

fn round_trips(make: impl Fn() -> Action) {
    let raw = encode_event(make());
    assert_eq!(type_event(raw), Ok(make()));
}

#[test]
fn encode_then_type_round_trips_every_variant() {
    round_trips(|| Action::Msg { level: 3, msg: "hello".into() });
    round_trips(|| Action::Stop { id: 99.into() });
    round_trips(|| Action::Start {
        start_type: StartFields::Unknown,
        id: 1.into(),
        level: 0,
        parent: 0.into(),
        text: "t".into(),
    });
    round_trips(|| Action::Start {
        start_type: StartFields::CopyPath {
            path: "p".into(),
            origin: "o".into(),
            destination: "d".into(),
        },
        id: 2.into(),
        level: 1,
        parent: 1.into(),
        text: "copying".into(),
    });
    round_trips(|| Action::Start {
        start_type: StartFields::FileTransfer { target: "url".into() },
        id: 3.into(),
        level: 2,
        parent: 2.into(),
        text: "transfer".into(),
    });
    round_trips(|| Action::Start {
        start_type: StartFields::Builds,
        id: 4.into(),
        level: 0,
        parent: 0.into(),
        text: "builds".into(),
    });
    round_trips(|| Action::Start {
        start_type: StartFields::Build {
            target: "t".into(),
            source: "s".into(),
            val1: 1,
            val2: 2,
        },
        id: 5.into(),
        level: 0,
        parent: 4.into(),
        text: "building".into(),
    });
    round_trips(|| Action::Start {
        start_type: StartFields::Substitute { source: "s".into(), target: "t".into() },
        id: 6.into(),
        level: 0,
        parent: 0.into(),
        text: "subst".into(),
    });
    round_trips(|| Action::Result {
        id: 7.into(),
        fields: ResultFields::BuildLogLine("a line".into()),
    });
    round_trips(|| Action::Result { id: 8.into(), fields: ResultFields::SetPhase("configure".into()) });
    round_trips(|| Action::Result {
        id: 9.into(),
        fields: ResultFields::Progress { done: 1, expected: 2, running: 3, failed: 4 },
    });
    round_trips(|| Action::Result {
        id: 10.into(),
        fields: ResultFields::SetExpected { action: ActionType::CopyPaths, expected: 11 },
    });
}

#[test]
fn envelope_keeps_payload_opaque() {
    let raw = decode_envelope(
        r#"{"action":"result","id":1,"type":106,"fields":[101,4242]}"#,
    )
    .unwrap();
    assert_eq!(raw.any_type, Some(106));
    assert_eq!(raw.id, Some(BuildStepId(1)));
    assert!(raw.fields.is_some());
}

#[test]
fn action_type_codes_round_trip() {
    for code in 0u8..=255 {
        let t = ActionType::from_code(code);
        if t != ActionType::Unknown {
            assert_eq!(t.code(), code);
        }
    }
    assert_eq!(ActionType::from_code(0), ActionType::Unknown);
    assert_eq!(ActionType::from_code(104), ActionType::Builds);
    assert_eq!(ActionType::from_code(105), ActionType::Build);
}

#[test]
fn ids_span_the_full_sixty_four_bits() {
    let act = Action::parse(r#"{"action":"stop","id":18446744073709551615}"#).unwrap();
    assert_eq!(act, Action::Stop { id: 18446744073709551615.into() });
}

#[test]
fn phase_changes_decode() {
    let act =
        Action::parse(r#"{"action":"result","id":1,"type":104,"fields":["buildPhase"]}"#).unwrap();
    assert_eq!(
        act,
        Action::Result { id: 1.into(), fields: ResultFields::SetPhase("buildPhase".into()) }
    );
}

#[test]
fn free_standing_messages_decode() {
    let act = Action::parse(r#"{"action":"msg","level":0,"msg":"warning: dirty tree"}"#).unwrap();
    assert_eq!(act, Action::Msg { level: 0, msg: "warning: dirty tree".into() });
}
