use glowpub::api::GlowficError;
use glowpub::codec::{
    decode_board_outcome, decode_post_outcome, decode_replies_outcome, encode_board_outcome,
    encode_post_outcome, encode_replies_outcome,
};
use glowpub::types::{Board, BoardInPost, Character, Icon, Post, Reply, Section, User};

fn chars(s: &str) -> Vec<char> {
    s.chars().collect()
}

fn sample_board() -> Board {
    Board {
        id: 216,
        name: "a board \"quoted\"\nwith control characters\t".to_string(),
        board_sections: vec![
            Section { id: 1, name: "A".to_string(), order: 0 },
            Section { id: 2, name: "B\\end".to_string(), order: 1 },
        ],
    }
}

fn sample_post() -> Post {
    Post {
        id: 100,
        authors: vec![
            User { id: 1, username: "alice".to_string() },
            User { id: 2, username: "b\u{25bc}b".to_string() },
        ],
        board: BoardInPost { id: 216, name: "somewhere".to_string() },
        character: Some(Character {
            id: 9,
            name: "Nine".to_string(),
            screenname: None,
        }),
        content: "<p>hello</p>".to_string(),
        created_at: 1577865600,
        description: None,
        icon: Some(Icon {
            id: 4,
            keyword: Some("smile".to_string()),
            url: Some("https://example.com/i.png".to_string()),
        }),
        num_replies: 1,
        section: Some(Section { id: 1, name: "A".to_string(), order: 0 }),
        section_order: 0,
        status: "complete".to_string(),
        subject: "a subject".to_string(),
        tagged_at: 1577952000,
    }
}

fn sample_reply() -> Reply {
    Reply {
        id: 7,
        character: None,
        character_name: Some("alias".to_string()),
        content: "reply body".to_string(),
        created_at: -62135596800, // a pre-1970 timestamp round-trips too
        icon: None,
        updated_at: 1577952000,
        user: User { id: 2, username: "bob".to_string() },
    }
}

/// Serializing then deserializing an outcome yields a value equal to
/// the original: the success variant.
#[test]
fn board_outcome_round_trips_success() {
    let outcome: Result<Board, Vec<GlowficError>> = Ok(sample_board());
    let mut text = String::new();
    encode_board_outcome(&mut text, &outcome);
    let v = chars(&text);
    let (decoded, used) = decode_board_outcome(&v, 0).expect("an encoding must decode");
    assert_eq!(used, v.len());
    assert_eq!(decoded, outcome);
}

/// Serializing then deserializing an outcome yields a value equal to
/// the original: the error variant.
#[test]
fn board_outcome_round_trips_error() {
    let outcome: Result<Board, Vec<GlowficError>> = Err(vec![
        GlowficError { message: "Post could not be found.".to_string() },
        GlowficError { message: "strange \"chars\" \\ here".to_string() },
    ]);
    let mut text = String::new();
    encode_board_outcome(&mut text, &outcome);
    let v = chars(&text);
    let (decoded, used) = decode_board_outcome(&v, 0).expect("an encoding must decode");
    assert_eq!(used, v.len());
    assert_eq!(decoded, outcome);
}

#[test]
fn post_outcome_round_trips_both_variants() {
    let ok: Result<Post, Vec<GlowficError>> = Ok(sample_post());
    let mut text = String::new();
    encode_post_outcome(&mut text, &ok);
    let v = chars(&text);
    let (decoded, used) = decode_post_outcome(&v, 0).unwrap();
    assert_eq!(used, v.len());
    assert_eq!(decoded, ok);

    let failed: Result<Post, Vec<GlowficError>> =
        Err(vec![GlowficError { message: "no".to_string() }]);
    let mut text = String::new();
    encode_post_outcome(&mut text, &failed);
    let v = chars(&text);
    let (decoded, used) = decode_post_outcome(&v, 0).unwrap();
    assert_eq!(used, v.len());
    assert_eq!(decoded, failed);
}

#[test]
fn replies_outcome_round_trips() {
    let ok: Result<Vec<Reply>, Vec<GlowficError>> = Ok(vec![sample_reply(), sample_reply()]);
    let mut text = String::new();
    encode_replies_outcome(&mut text, &ok);
    let v = chars(&text);
    let (decoded, used) = decode_replies_outcome(&v, 0).unwrap();
    assert_eq!(used, v.len());
    assert_eq!(decoded, ok);

    let empty: Result<Vec<Reply>, Vec<GlowficError>> = Ok(vec![]);
    let mut text = String::new();
    encode_replies_outcome(&mut text, &empty);
    let v = chars(&text);
    let (decoded, used) = decode_replies_outcome(&v, 0).unwrap();
    assert_eq!(used, v.len());
    assert_eq!(decoded, empty);
}

#[test]
fn the_envelope_is_readable_json_shaped_text() {
    let outcome: Result<Board, Vec<GlowficError>> =
        Ok(Board { id: 1, name: "x".to_string(), board_sections: vec![] });
    let mut text = String::new();
    encode_board_outcome(&mut text, &outcome);
    assert_eq!(text, "{\"Ok\":{\"id\":1,\"name\":\"x\",\"board_sections\":[]}}");
}

#[test]
fn extreme_values_round_trip() {
    let outcome: Result<Board, Vec<GlowficError>> = Ok(Board {
        id: u64::MAX,
        name: String::new(),
        board_sections: vec![Section { id: 0, name: "\u{0}weird".to_string(), order: u64::MAX }],
    });
    let mut text = String::new();
    encode_board_outcome(&mut text, &outcome);
    let v = chars(&text);
    let (decoded, used) = decode_board_outcome(&v, 0).unwrap();
    assert_eq!(used, v.len());
    assert_eq!(decoded, outcome);

    let mut reply = sample_reply();
    reply.created_at = i64::MIN;
    reply.updated_at = i64::MAX;
    let ok: Result<Vec<Reply>, Vec<GlowficError>> = Ok(vec![reply]);
    let mut text = String::new();
    encode_replies_outcome(&mut text, &ok);
    let v = chars(&text);
    let (decoded, used) = decode_replies_outcome(&v, 0).unwrap();
    assert_eq!(used, v.len());
    assert_eq!(decoded, ok);
}

#[test]
fn corrupted_text_does_not_decode() {
    let v = chars("{\"Ok\":{\"id\":1,\"name\":\"x\",\"board_se");
    assert!(decode_board_outcome(&v, 0).is_none());
    let v = chars("not a cache file at all");
    assert!(decode_board_outcome(&v, 0).is_none());
}

#[test]
fn control_characters_encode_as_valid_json() {
    let outcome: Result<Board, Vec<GlowficError>> = Ok(Board {
        id: 1,
        name: "a\u{1}b\u{1f}c\nd".to_string(),
        board_sections: vec![],
    });
    let mut text = String::new();
    encode_board_outcome(&mut text, &outcome);
    assert!(text.contains("\\u0001"));
    assert!(text.contains("\\u001f"));
    assert!(text.contains("\\n"));
    // The whole envelope parses as JSON, control characters included.
    assert!(serde_json::from_str::<serde_json::Value>(&text).is_ok());
    let v = chars(&text);
    let (decoded, used) = decode_board_outcome(&v, 0).unwrap();
    assert_eq!(used, v.len());
    assert_eq!(decoded, outcome);
}
