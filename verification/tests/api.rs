use glowpub::api::{
    fetch_decision, resolve_escalation, BoardPosts, FetchStep, GlowficError, GlowficResponse,
    Paginator, Replies, Retry,
};
use glowpub::auth::Session;
use glowpub::types::{Board, Post, Token};

fn err(message: &str) -> GlowficError {
    GlowficError { message: message.to_string() }
}

const PERMISSION_DENIED: &str = "You do not have permission to perform this action.";

#[test]
fn request_urls() {
    assert_eq!(Board::url(42), "https://www.glowfic.com/api/v1/boards/42");
    assert_eq!(Post::url(12345), "https://www.glowfic.com/api/v1/posts/12345");
    assert_eq!(
        Replies::page_url(7, 3),
        "https://www.glowfic.com/api/v1/posts/7/replies?page=3"
    );
    assert_eq!(
        BoardPosts::page_url(216, 1),
        "https://www.glowfic.com/api/v1/boards/216/posts?page=1"
    );
}

#[test]
fn response_to_result() {
    let ok: GlowficResponse<u64> = GlowficResponse::Value(9);
    assert_eq!(ok.to_result(), Ok(9));
    let failed: GlowficResponse<u64> = GlowficResponse::Error { errors: vec![err("nope")] };
    assert_eq!(failed.to_result(), Err(vec![err("nope")]));
}

#[test]
fn permission_errors_are_recognised() {
    assert!(err(PERMISSION_DENIED).is_permission_error());
    assert!(!err("Post could not be found.").is_permission_error());
    assert!(err("Authorization token is not valid.").is_auth_error());

    let resp: GlowficResponse<u64> = GlowficResponse::Error {
        errors: vec![err("other"), err(PERMISSION_DENIED)],
    };
    assert!(resp.is_permission_error());
    let value: GlowficResponse<u64> = GlowficResponse::Value(1);
    assert!(!value.is_permission_error());
}

/// Pages 1..N non-empty and page N+1 empty: exactly N+1 requests, and
/// the concatenation of pages 1..N in order.
#[test]
fn pagination_terminates_on_empty_page() {
    let mut p: Paginator<u64> = Paginator::new();
    let pages: Vec<Vec<u64>> = vec![vec![1, 2], vec![3], vec![4, 5, 6], vec![]];
    let mut issued = 0;
    for page in pages {
        assert!(!p.done);
        assert_eq!(p.current_page(), issued + 1 as u64);
        p.on_page(page);
        issued += 1;
    }
    assert!(p.done);
    assert_eq!(p.requests, 4);
    assert_eq!(p.into_result(), Ok(vec![1, 2, 3, 4, 5, 6]));
}

#[test]
fn pagination_error_discards_collected_pages() {
    let mut p: Paginator<u64> = Paginator::new();
    p.on_page(vec![1, 2]);
    p.on_errors(vec![err("boom")]);
    assert!(p.done);
    assert_eq!(p.requests, 2);
    assert_eq!(p.into_result(), Err(vec![err("boom")]));
}

#[test]
fn retry_schedule_doubles_and_gives_up() {
    let mut r = Retry::new(3, 100);
    assert_eq!(r.on_failure(), Some(100));
    assert_eq!(r.on_failure(), Some(200));
    assert_eq!(r.on_failure(), Some(400));
    assert_eq!(r.on_failure(), None);
    assert_eq!(r.on_failure(), None);
}

#[test]
fn escalation_fires_once_without_token() {
    let denied: GlowficResponse<u64> =
        GlowficResponse::Error { errors: vec![err(PERMISSION_DENIED)] };
    match fetch_decision(denied, false) {
        FetchStep::Escalate(first) => {
            // Token obtained; the authenticated retry succeeded.
            let second: GlowficResponse<u64> = GlowficResponse::Value(5);
            assert_eq!(resolve_escalation(first, Some(second)), Ok(5));
        }
        FetchStep::Done(_) => panic!("a permission error without a token must escalate"),
    }

    let denied: GlowficResponse<u64> =
        GlowficResponse::Error { errors: vec![err(PERMISSION_DENIED)] };
    match fetch_decision(denied, true) {
        FetchStep::Done(r) => assert_eq!(r, Err(vec![err(PERMISSION_DENIED)])),
        FetchStep::Escalate(_) => panic!("a held token means no second escalation"),
    }

    let plain: GlowficResponse<u64> = GlowficResponse::Value(3);
    match fetch_decision(plain, false) {
        FetchStep::Done(r) => assert_eq!(r, Ok(3)),
        FetchStep::Escalate(_) => panic!("a success never escalates"),
    }
}

#[test]
fn escalation_without_credential_keeps_first_outcome() {
    let denied: GlowficResponse<u64> =
        GlowficResponse::Error { errors: vec![err(PERMISSION_DENIED)] };
    let r = resolve_escalation(denied, None);
    assert_eq!(r, Err(vec![err(PERMISSION_DENIED)]));
}

#[test]
fn session_token_is_set_once() {
    let mut s = Session::new();
    assert!(s.try_global().is_none());
    assert!(!s.has_token());
    s.store_token(Token { token: "SECRET-REDACTED".to_string() });
    assert!(s.has_token());
    assert_eq!(s.try_global().unwrap().token, "SECRET-REDACTED");
    // The first successful login wins; a later one does not replace it.
    s.store_token(Token { token: "other".to_string() });
    assert_eq!(s.try_global().unwrap().token, "SECRET-REDACTED");
}
