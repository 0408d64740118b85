use glowpub::api::{BoardPosts, GlowficError, Replies};
use glowpub::cached::{
    board_cache_lookup, board_cache_text, classify_image_matches, image_cache_key,
    post_cache_lookup, post_cache_text, should_write, ContinuityFetch, FetchAction, ImageLookup,
};
use glowpub::utils::ImageMime;
use glowpub::types::{Board, Icon, Post, Section};

fn chars(s: &str) -> Vec<char> {
    s.chars().collect()
}

fn sample_board() -> Board {
    Board {
        id: 42,
        name: "somewhere".to_string(),
        board_sections: vec![Section { id: 1, name: "A".to_string(), order: 0 }],
    }
}

#[test]
fn cache_keys_are_deterministic_paths() {
    assert_eq!(Board::cache_key(42), "boards/42.json");
    assert_eq!(Post::cache_key(100), "posts/100/post.json");
    assert_eq!(Replies::cache_key(100), "posts/100/replies.json");
    assert_eq!(BoardPosts::cache_key(42), "boards/42/posts.json");
    assert_eq!(Icon::cache_key(9, "png"), "images/glowfic_9.png");
    assert_eq!(image_cache_key("ab12", "jpeg"), "images/hash_ab12.jpeg");
}

/// The second of two get-or-fetch calls is answered from disk: after
/// a success outcome is persisted, the lookup is a hit and no fetch
/// is requested.
#[test]
fn persisted_success_is_a_hit() {
    let outcome: Result<Board, Vec<GlowficError>> = Ok(sample_board());
    let text = board_cache_text(&outcome);
    let disk = chars(&text);
    let hit = board_cache_lookup(Some(&disk), false);
    assert_eq!(hit, Some(sample_board()));
}

/// A persisted error outcome is kept for diagnostics but never trusted
/// as a hit: the next call fetches again.
#[test]
fn persisted_error_is_refetched() {
    let outcome: Result<Board, Vec<GlowficError>> =
        Err(vec![GlowficError { message: "down".to_string() }]);
    let text = board_cache_text(&outcome);
    let disk = chars(&text);
    assert_eq!(board_cache_lookup(Some(&disk), false), None);
}

#[test]
fn invalidation_always_fetches() {
    let outcome: Result<Board, Vec<GlowficError>> = Ok(sample_board());
    let text = board_cache_text(&outcome);
    let disk = chars(&text);
    assert_eq!(board_cache_lookup(Some(&disk), true), None);
}

#[test]
fn missing_or_corrupt_files_fetch() {
    assert_eq!(board_cache_lookup(None, false), None);
    let garbage = chars("{\"Ok\":{\"id\":42&&&");
    assert_eq!(board_cache_lookup(Some(&garbage), false), None);
    let trailing = {
        let outcome: Result<Board, Vec<GlowficError>> = Ok(sample_board());
        let mut text = board_cache_text(&outcome);
        text.push_str("x");
        chars(&text)
    };
    assert_eq!(board_cache_lookup(Some(&trailing), false), None);
}

#[test]
fn post_lookup_follows_the_same_policy() {
    let outcome: Result<Post, Vec<GlowficError>> =
        Err(vec![GlowficError { message: "gone".to_string() }]);
    let text = post_cache_text(&outcome);
    let disk = chars(&text);
    assert_eq!(post_cache_lookup(Some(&disk), false), None);
}

#[test]
fn writes_are_content_idempotent() {
    let new_contents: Vec<u8> = vec![1, 2, 3];
    assert!(should_write(None, &new_contents));
    let same: Vec<u8> = vec![1, 2, 3];
    assert!(!should_write(Some(&same), &new_contents));
    let differs: Vec<u8> = vec![1, 2, 4];
    assert!(should_write(Some(&differs), &new_contents));
    let shorter: Vec<u8> = vec![1, 2];
    assert!(should_write(Some(&shorter), &new_contents));
}

#[test]
fn wildcard_image_lookup_policy() {
    assert!(matches!(classify_image_matches(&vec![]), ImageLookup::Missing));
    assert!(matches!(
        classify_image_matches(&vec!["png".to_string()]),
        ImageLookup::Reuse(ImageMime::Png)
    ));
    assert!(matches!(
        classify_image_matches(&vec!["tiff".to_string()]),
        ImageLookup::Missing
    ));
    // Two files under one key is corruption: delete both, re-fetch.
    assert!(matches!(
        classify_image_matches(&vec!["png".to_string(), "jpeg".to_string()]),
        ImageLookup::CorruptDeleteAll
    ));
}

fn index_summary(id: u64) -> glowpub::types::PostInBoard {
    glowpub::types::PostInBoard {
        id,
        authors: vec![glowpub::types::User { id: 1, username: "alice".to_string() }],
        board: glowpub::types::BoardInPost { id: 42, name: "somewhere".to_string() },
        created_at: 0,
        description: None,
        num_replies: 0,
        section: None,
        section_order: 0,
        status: "complete".to_string(),
        subject: format!("post {id}"),
        tagged_at: 0,
    }
}

fn fetched_thread(id: u64) -> glowpub::types::Thread {
    glowpub::types::Thread {
        post: glowpub::types::Post {
            id,
            authors: vec![],
            board: glowpub::types::BoardInPost { id: 42, name: "somewhere".to_string() },
            character: None,
            content: String::new(),
            created_at: 0,
            description: None,
            icon: None,
            num_replies: 0,
            section: None,
            section_order: 0,
            status: "complete".to_string(),
            subject: format!("post {id}"),
            tagged_at: 0,
        },
        replies: vec![],
    }
}

#[test]
fn continuity_fetch_runs_in_order() {
    let board = sample_board();
    let mut fetch = ContinuityFetch::new();
    assert!(matches!(fetch.next_action(), FetchAction::FetchBoard));
    fetch.on_board(Ok(board.clone()));
    assert!(matches!(fetch.next_action(), FetchAction::FetchIndex));
    fetch.on_index(Ok(vec![index_summary(7), index_summary(9)]));
    match fetch.next_action() {
        FetchAction::FetchThread(id) => assert_eq!(id, 7),
        _ => panic!("the first thread fetch must target the first index entry"),
    }
    fetch.on_thread(Ok(fetched_thread(7)));
    match fetch.next_action() {
        FetchAction::FetchThread(id) => assert_eq!(id, 9),
        _ => panic!("the second thread fetch must target the second index entry"),
    }
    fetch.on_thread(Ok(fetched_thread(9)));
    assert!(matches!(fetch.next_action(), FetchAction::Done));
    let continuity = fetch.into_result().expect("every part arrived");
    assert_eq!(continuity.board, board);
    let ids: Vec<u64> = continuity.threads.iter().map(|t| t.post.id).collect();
    assert_eq!(ids, vec![7, 9]);
}

#[test]
fn continuity_fetch_surfaces_the_first_error() {
    let mut fetch = ContinuityFetch::new();
    fetch.on_board(Ok(sample_board()));
    fetch.on_index(Err(vec![GlowficError { message: "down".to_string() }]));
    assert!(matches!(fetch.next_action(), FetchAction::Done));
    assert_eq!(
        fetch.into_result(),
        Err(vec![GlowficError { message: "down".to_string() }])
    );
}
