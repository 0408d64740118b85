//! The disk cache's decisions.  The cache itself is a directory tree
//! that the surrounding program reads and writes; everything that
//! *decides* lives here: how a resource's key is derived, when a file
//! on disk counts as a hit, what is persisted after a fetch, and when
//! a write may be skipped.  The policy is "trust success, never trust
//! failure": a persisted error outcome is kept for diagnostics but is
//! never served as a hit.

use vstd::prelude::*;

use crate::api::{BoardPosts, GlowficError, GlowficErrorV, Replies};
use crate::codec::{
    board_outcome_view, board_posts_outcome_view, dec_board_outcome_at, dec_board_posts_outcome_at,
    dec_post_outcome_at, dec_replies_outcome_at, enc_board_outcome, enc_board_posts_outcome,
    enc_post_outcome, enc_replies_outcome, encode_board_outcome, encode_board_posts_outcome,
    encode_post_outcome, encode_replies_outcome, decode_board_outcome, decode_board_posts_outcome,
    decode_post_outcome, decode_replies_outcome, lemma_board_outcome_round,
    lemma_board_posts_outcome_round, lemma_post_outcome_round, lemma_replies_outcome_round,
    post_outcome_view, replies_outcome_view,
};
use crate::textfmt::{dec_of, push_lit, push_u64};
use crate::types::{
    Board, BoardV, Continuity, Icon, Post, PostInBoard, PostInBoardV, PostV, Reply, ReplyV,
    Thread,
};

verus! {

// ---------------------------------------------------------------------
// Cache keys: deterministic paths relative to the cache root.

impl Board {
    /// The cache path of a board's own record.
    pub fn cache_key(id: u64) -> (r: String)
        ensures
            r@ == "boards/"@ + dec_of(id as nat) + ".json"@,
    {
        let mut out = String::new();
        push_lit(&mut out, "boards/");
        push_u64(&mut out, id);
        push_lit(&mut out, ".json");
        assert(out@ =~= "boards/"@ + dec_of(id as nat) + ".json"@);
        out
    }
}

impl Post {
    /// The cache path of a post's full content.
    pub fn cache_key(id: u64) -> (r: String)
        ensures
            r@ == "posts/"@ + dec_of(id as nat) + "/post.json"@,
    {
        let mut out = String::new();
        push_lit(&mut out, "posts/");
        push_u64(&mut out, id);
        push_lit(&mut out, "/post.json");
        assert(out@ =~= "posts/"@ + dec_of(id as nat) + "/post.json"@);
        out
    }
}

impl Replies {
    /// The cache path of a post's full reply list.
    pub fn cache_key(id: u64) -> (r: String)
        ensures
            r@ == "posts/"@ + dec_of(id as nat) + "/replies.json"@,
    {
        let mut out = String::new();
        push_lit(&mut out, "posts/");
        push_u64(&mut out, id);
        push_lit(&mut out, "/replies.json");
        assert(out@ =~= "posts/"@ + dec_of(id as nat) + "/replies.json"@);
        out
    }
}

impl BoardPosts {
    /// The cache path of a board's paginated post index.
    pub fn cache_key(id: u64) -> (r: String)
        ensures
            r@ == "boards/"@ + dec_of(id as nat) + "/posts.json"@,
    {
        let mut out = String::new();
        push_lit(&mut out, "boards/");
        push_u64(&mut out, id);
        push_lit(&mut out, "/posts.json");
        assert(out@ =~= "boards/"@ + dec_of(id as nat) + "/posts.json"@);
        out
    }
}

impl Icon {
    /// The cache path of an icon's image bytes, under a given file
    /// extension.  Names start with a letter: names starting with a
    /// number can be problematic in some document containers.
    pub fn cache_key(id: u64, extension: &str) -> (r: String)
        ensures
            r@ == "images/glowfic_"@ + dec_of(id as nat) + "."@ + extension@,
    {
        let mut out = String::new();
        push_lit(&mut out, "images/glowfic_");
        push_u64(&mut out, id);
        push_lit(&mut out, ".");
        push_lit(&mut out, extension);
        assert(out@ =~= "images/glowfic_"@ + dec_of(id as nat) + "."@ + extension@);
        out
    }
}

/// The cache path of an inline image's bytes, keyed by a hash of its
/// source URL rather than an icon id.
pub fn image_cache_key(hash: &str, extension: &str) -> (r: String)
    ensures
        r@ == "images/hash_"@ + hash@ + "."@ + extension@,
{
    let mut out = String::new();
    push_lit(&mut out, "images/hash_");
    push_lit(&mut out, hash);
    push_lit(&mut out, ".");
    push_lit(&mut out, extension);
    assert(out@ =~= "images/hash_"@ + hash@ + "."@ + extension@);
    out
}

// The keys as character sequences, for stating that they never
// collide.

pub open spec fn spec_board_key(id: u64) -> Seq<char> {
    "boards/"@ + dec_of(id as nat) + ".json"@
}

pub open spec fn spec_post_key(id: u64) -> Seq<char> {
    "posts/"@ + dec_of(id as nat) + "/post.json"@
}

pub open spec fn spec_replies_key(id: u64) -> Seq<char> {
    "posts/"@ + dec_of(id as nat) + "/replies.json"@
}

pub open spec fn spec_board_posts_key(id: u64) -> Seq<char> {
    "boards/"@ + dec_of(id as nat) + "/posts.json"@
}

/// Cache paths are collision-free: each of the four envelope keys
/// determines its resource kind and id — a board's own record, its
/// post index, a post's content and its reply list can never land in
/// one file.
pub proof fn lemma_cache_keys_collision_free(id1: u64, id2: u64)
    ensures
        spec_board_key(id1) == spec_board_key(id2) ==> id1 == id2,
        spec_post_key(id1) == spec_post_key(id2) ==> id1 == id2,
        spec_replies_key(id1) == spec_replies_key(id2) ==> id1 == id2,
        spec_board_posts_key(id1) == spec_board_posts_key(id2) ==> id1 == id2,
        spec_board_key(id1) != spec_post_key(id2),
        spec_board_key(id1) != spec_replies_key(id2),
        spec_board_key(id1) != spec_board_posts_key(id2),
        spec_post_key(id1) != spec_replies_key(id2),
        spec_post_key(id1) != spec_board_posts_key(id2),
        spec_replies_key(id1) != spec_board_posts_key(id2),
{
    reveal_strlit("boards/");
    reveal_strlit("posts/");
    reveal_strlit(".json");
    reveal_strlit("/post.json");
    reveal_strlit("/replies.json");
    reveal_strlit("/posts.json");
    crate::textfmt::lemma_keyed_text_injective(
        "boards/"@,
        id1,
        ".json"@,
        id2,
        ".json"@,
    );
    crate::textfmt::lemma_keyed_text_injective(
        "posts/"@,
        id1,
        "/post.json"@,
        id2,
        "/post.json"@,
    );
    crate::textfmt::lemma_keyed_text_injective(
        "posts/"@,
        id1,
        "/replies.json"@,
        id2,
        "/replies.json"@,
    );
    crate::textfmt::lemma_keyed_text_injective(
        "boards/"@,
        id1,
        "/posts.json"@,
        id2,
        "/posts.json"@,
    );
    crate::textfmt::lemma_dec_of_digits(id1 as nat);
    crate::textfmt::lemma_dec_of_digits(id2 as nat);
    assert(spec_board_key(id1)[0] == 'b');
    assert(spec_post_key(id2)[0] == 'p');
    assert(spec_replies_key(id2)[0] == 'p');
    assert(spec_board_posts_key(id2)[0] == 'b');
    crate::textfmt::lemma_keyed_text_injective(
        "boards/"@,
        id1,
        ".json"@,
        id2,
        "/posts.json"@,
    );
    if spec_board_key(id1) == spec_board_posts_key(id2) {
        assert(".json"@ == "/posts.json"@);
        assert(".json"@.len() != "/posts.json"@.len());
    }
    crate::textfmt::lemma_keyed_text_injective(
        "posts/"@,
        id1,
        "/post.json"@,
        id2,
        "/replies.json"@,
    );
    if spec_post_key(id1) == spec_replies_key(id2) {
        assert("/post.json"@ == "/replies.json"@);
        assert("/post.json"@.len() != "/replies.json"@.len());
    }
}

// ---------------------------------------------------------------------
// Lookup decisions.  The surrounding program reads the cache file (if
// any) and hands its text over; the decision whether that text counts
// as a hit is verified here.  A file that fails to decode, decodes
// with trailing text, or holds an error outcome is treated exactly
// like a missing file: the resource is fetched again.

pub open spec fn opt_text_view(disk: Option<&Vec<char>>) -> Option<Seq<char>> {
    match disk {
        Some(d) => Some(d@),
        None => None,
    }
}

pub open spec fn spec_board_cache_hit(disk: Option<Seq<char>>, invalidate: bool) -> Option<BoardV> {
    if invalidate {
        None
    } else {
        match disk {
            None => None,
            Some(text) => match dec_board_outcome_at(text) {
                Some((Ok(b), rest)) => if rest.len() == 0 {
                    Some(b)
                } else {
                    None
                },
                _ => None,
            },
        }
    }
}

/// The get-or-fetch decision for a board: `Some` is a cache hit served
/// without network access, `None` means the caller must fetch.
pub fn board_cache_lookup(disk: Option<&Vec<char>>, invalidate: bool) -> (r: Option<Board>)
    ensures
        match r {
            Some(b) => spec_board_cache_hit(opt_text_view(disk), invalidate) == Some(b@),
            None => spec_board_cache_hit(opt_text_view(disk), invalidate) is None,
        },
{
    if invalidate {
        return None;
    }
    let d = match disk {
        Some(d) => d,
        None => { return None; },
    };
    match decode_board_outcome(d, 0) {
        Some((Ok(b), j)) => {
            if j == d.len() {
                proof {
                    assert(d@.skip(0) =~= d@);
                    assert(d@.skip(j as int).len() == 0);
                }
                Some(b)
            } else {
                proof {
                    assert(d@.skip(0) =~= d@);
                    assert(d@.skip(j as int).len() != 0);
                }
                None
            }
        },
        Some((Err(_), _)) => {
            proof {
                assert(d@.skip(0) =~= d@);
            }
            None
        },
        None => {
            proof {
                assert(d@.skip(0) =~= d@);
            }
            None
        },
    }
}

pub open spec fn spec_post_cache_hit(disk: Option<Seq<char>>, invalidate: bool) -> Option<PostV> {
    if invalidate {
        None
    } else {
        match disk {
            None => None,
            Some(text) => match dec_post_outcome_at(text) {
                Some((Ok(p), rest)) => if rest.len() == 0 {
                    Some(p)
                } else {
                    None
                },
                _ => None,
            },
        }
    }
}

/// The get-or-fetch decision for a post's full content.
pub fn post_cache_lookup(disk: Option<&Vec<char>>, invalidate: bool) -> (r: Option<Post>)
    ensures
        match r {
            Some(p) => spec_post_cache_hit(opt_text_view(disk), invalidate) == Some(p@),
            None => spec_post_cache_hit(opt_text_view(disk), invalidate) is None,
        },
{
    if invalidate {
        return None;
    }
    let d = match disk {
        Some(d) => d,
        None => { return None; },
    };
    match decode_post_outcome(d, 0) {
        Some((Ok(p), j)) => {
            if j == d.len() {
                proof {
                    assert(d@.skip(0) =~= d@);
                    assert(d@.skip(j as int).len() == 0);
                }
                Some(p)
            } else {
                proof {
                    assert(d@.skip(0) =~= d@);
                    assert(d@.skip(j as int).len() != 0);
                }
                None
            }
        },
        Some((Err(_), _)) => {
            proof {
                assert(d@.skip(0) =~= d@);
            }
            None
        },
        None => {
            proof {
                assert(d@.skip(0) =~= d@);
            }
            None
        },
    }
}

pub open spec fn spec_replies_cache_hit(disk: Option<Seq<char>>, invalidate: bool) -> Option<
    Seq<ReplyV>,
> {
    if invalidate {
        None
    } else {
        match disk {
            None => None,
            Some(text) => match dec_replies_outcome_at(text) {
                Some((Ok(rs), rest)) => if rest.len() == 0 {
                    Some(rs)
                } else {
                    None
                },
                _ => None,
            },
        }
    }
}

/// The get-or-fetch decision for a post's full reply list.
pub fn replies_cache_lookup(disk: Option<&Vec<char>>, invalidate: bool) -> (r: Option<Vec<Reply>>)
    ensures
        match r {
            Some(rs) => spec_replies_cache_hit(opt_text_view(disk), invalidate) == Some(
                crate::codec::replies_view(rs@),
            ),
            None => spec_replies_cache_hit(opt_text_view(disk), invalidate) is None,
        },
{
    if invalidate {
        return None;
    }
    let d = match disk {
        Some(d) => d,
        None => { return None; },
    };
    match decode_replies_outcome(d, 0) {
        Some((Ok(rs), j)) => {
            if j == d.len() {
                proof {
                    assert(d@.skip(0) =~= d@);
                    assert(d@.skip(j as int).len() == 0);
                }
                Some(rs)
            } else {
                proof {
                    assert(d@.skip(0) =~= d@);
                    assert(d@.skip(j as int).len() != 0);
                }
                None
            }
        },
        Some((Err(_), _)) => {
            proof {
                assert(d@.skip(0) =~= d@);
            }
            None
        },
        None => {
            proof {
                assert(d@.skip(0) =~= d@);
            }
            None
        },
    }
}

pub open spec fn spec_board_posts_cache_hit(disk: Option<Seq<char>>, invalidate: bool) -> Option<
    Seq<PostInBoardV>,
> {
    if invalidate {
        None
    } else {
        match disk {
            None => None,
            Some(text) => match dec_board_posts_outcome_at(text) {
                Some((Ok(ps), rest)) => if rest.len() == 0 {
                    Some(ps)
                } else {
                    None
                },
                _ => None,
            },
        }
    }
}

/// The get-or-fetch decision for a board's paginated post index.
pub fn board_posts_cache_lookup(disk: Option<&Vec<char>>, invalidate: bool) -> (r: Option<
    Vec<PostInBoard>,
>)
    ensures
        match r {
            Some(ps) => spec_board_posts_cache_hit(opt_text_view(disk), invalidate) == Some(
                crate::codec::post_in_boards_view(ps@),
            ),
            None => spec_board_posts_cache_hit(opt_text_view(disk), invalidate) is None,
        },
{
    if invalidate {
        return None;
    }
    let d = match disk {
        Some(d) => d,
        None => { return None; },
    };
    match decode_board_posts_outcome(d, 0) {
        Some((Ok(ps), j)) => {
            if j == d.len() {
                proof {
                    assert(d@.skip(0) =~= d@);
                    assert(d@.skip(j as int).len() == 0);
                }
                Some(ps)
            } else {
                proof {
                    assert(d@.skip(0) =~= d@);
                    assert(d@.skip(j as int).len() != 0);
                }
                None
            }
        },
        Some((Err(_), _)) => {
            proof {
                assert(d@.skip(0) =~= d@);
            }
            None
        },
        None => {
            proof {
                assert(d@.skip(0) =~= d@);
            }
            None
        },
    }
}

// ---------------------------------------------------------------------
// What is persisted after a fetch: the full outcome, success or error.

/// The exact text persisted for a board outcome.
pub fn board_cache_text(o: &Result<Board, Vec<GlowficError>>) -> (r: String)
    ensures
        r@ == enc_board_outcome(board_outcome_view(*o)),
{
    let mut out = String::new();
    encode_board_outcome(&mut out, o);
    assert(out@ =~= enc_board_outcome(board_outcome_view(*o)));
    out
}

/// The exact text persisted for a post outcome.
pub fn post_cache_text(o: &Result<Post, Vec<GlowficError>>) -> (r: String)
    ensures
        r@ == enc_post_outcome(post_outcome_view(*o)),
{
    let mut out = String::new();
    encode_post_outcome(&mut out, o);
    assert(out@ =~= enc_post_outcome(post_outcome_view(*o)));
    out
}

/// The exact text persisted for a reply-list outcome.
pub fn replies_cache_text(o: &Result<Vec<Reply>, Vec<GlowficError>>) -> (r: String)
    ensures
        r@ == enc_replies_outcome(replies_outcome_view(*o)),
{
    let mut out = String::new();
    encode_replies_outcome(&mut out, o);
    assert(out@ =~= enc_replies_outcome(replies_outcome_view(*o)));
    out
}

/// The exact text persisted for a post-index outcome.
pub fn board_posts_cache_text(o: &Result<Vec<PostInBoard>, Vec<GlowficError>>) -> (r: String)
    ensures
        r@ == enc_board_posts_outcome(board_posts_outcome_view(*o)),
{
    let mut out = String::new();
    encode_board_posts_outcome(&mut out, o);
    assert(out@ =~= enc_board_posts_outcome(board_posts_outcome_view(*o)));
    out
}

// ---------------------------------------------------------------------
// Idempotence.  Once a fetch's outcome has been persisted, a second
// request is answered from disk exactly when the outcome was a
// success; a persisted error outcome is re-fetched, and an invalidated
// cache is always re-fetched.

/// Idempotence of the board cache: a persisted success outcome is a
/// hit on the next lookup (no second network request), a persisted
/// error outcome never is, and an invalidated lookup never hits.
pub proof fn lemma_board_cache_idempotent(o: Result<BoardV, Seq<GlowficErrorV>>)
    ensures
        o matches Ok(b) ==> spec_board_cache_hit(Some(enc_board_outcome(o)), false) == Some(b),
        o is Err ==> spec_board_cache_hit(Some(enc_board_outcome(o)), false) is None,
        forall|d: Option<Seq<char>>| #[trigger] spec_board_cache_hit(d, true) is None,
{
    lemma_board_outcome_round(o, Seq::empty());
    assert(enc_board_outcome(o) + Seq::<char>::empty() =~= enc_board_outcome(o));
}

/// Idempotence of the post cache; see `lemma_board_cache_idempotent`.
pub proof fn lemma_post_cache_idempotent(o: Result<PostV, Seq<GlowficErrorV>>)
    ensures
        o matches Ok(p) ==> spec_post_cache_hit(Some(enc_post_outcome(o)), false) == Some(p),
        o is Err ==> spec_post_cache_hit(Some(enc_post_outcome(o)), false) is None,
        forall|d: Option<Seq<char>>| #[trigger] spec_post_cache_hit(d, true) is None,
{
    lemma_post_outcome_round(o, Seq::empty());
    assert(enc_post_outcome(o) + Seq::<char>::empty() =~= enc_post_outcome(o));
}

/// Idempotence of the reply-list cache; see `lemma_board_cache_idempotent`.
pub proof fn lemma_replies_cache_idempotent(o: Result<Seq<ReplyV>, Seq<GlowficErrorV>>)
    ensures
        o matches Ok(rs) ==> spec_replies_cache_hit(Some(enc_replies_outcome(o)), false) == Some(
            rs,
        ),
        o is Err ==> spec_replies_cache_hit(Some(enc_replies_outcome(o)), false) is None,
        forall|d: Option<Seq<char>>| #[trigger] spec_replies_cache_hit(d, true) is None,
{
    lemma_replies_outcome_round(o, Seq::empty());
    assert(enc_replies_outcome(o) + Seq::<char>::empty() =~= enc_replies_outcome(o));
}

/// Idempotence of the post-index cache; see `lemma_board_cache_idempotent`.
pub proof fn lemma_board_posts_cache_idempotent(o: Result<Seq<PostInBoardV>, Seq<GlowficErrorV>>)
    ensures
        o matches Ok(ps) ==> spec_board_posts_cache_hit(Some(enc_board_posts_outcome(o)), false)
            == Some(ps),
        o is Err ==> spec_board_posts_cache_hit(Some(enc_board_posts_outcome(o)), false) is None,
        forall|d: Option<Seq<char>>| #[trigger] spec_board_posts_cache_hit(d, true) is None,
{
    lemma_board_posts_outcome_round(o, Seq::empty());
    assert(enc_board_posts_outcome(o) + Seq::<char>::empty() =~= enc_board_posts_outcome(o));
}

// ---------------------------------------------------------------------
// The continuity fetch, step by step: the board's record, then its
// post index, then each thread in index order.  The surrounding
// program performs whatever `next_action` asks and reports the
// outcome; the first application error becomes the overall outcome
// and stops the run.

/// What the driver should do next.
pub enum FetchAction {
    FetchBoard,
    FetchIndex,
    /// Fetch the thread of the post with this id.
    FetchThread(u64),
    Done,
}

/// The state of one continuity fetch.
pub struct ContinuityFetch {
    pub board: Option<Board>,
    pub summaries: Vec<PostInBoard>,
    pub have_index: bool,
    pub next: usize,
    pub threads: Vec<Thread>,
    pub failed: Option<Vec<GlowficError>>,
}

pub open spec fn continuity_fetch_wf(f: &ContinuityFetch) -> bool {
    &&& f.next <= f.summaries@.len()
    &&& f.threads@.len() == f.next
    &&& (f.have_index ==> f.board is Some)
    &&& (!f.have_index ==> f.summaries@.len() == 0 && f.next == 0)
}

impl ContinuityFetch {
    pub fn new() -> (r: ContinuityFetch)
        ensures
            continuity_fetch_wf(&r),
            r.board is None,
            !r.have_index,
            r.threads@ == Seq::<Thread>::empty(),
            r.failed is None,
    {
        ContinuityFetch {
            board: None,
            summaries: Vec::new(),
            have_index: false,
            next: 0,
            threads: Vec::new(),
            failed: None,
        }
    }

    /// The next fetch the run needs, in order: board, index, one
    /// thread per index entry; `Done` once everything is in or an
    /// error has settled the outcome.
    pub fn next_action(&self) -> (r: FetchAction)
        requires
            continuity_fetch_wf(self),
        ensures
            self.failed is Some ==> r is Done,
            self.failed is None && self.board is None ==> r is FetchBoard,
            self.failed is None && self.board is Some && !self.have_index ==> r is FetchIndex,
            self.failed is None && self.have_index && self.next < self.summaries@.len() ==> r
                == FetchAction::FetchThread(self.summaries@[self.next as int].id),
            self.failed is None && self.have_index && self.next == self.summaries@.len() ==> r
                is Done,
    {
        if self.failed.is_some() {
            FetchAction::Done
        } else if self.board.is_none() {
            FetchAction::FetchBoard
        } else if !self.have_index {
            FetchAction::FetchIndex
        } else if self.next < self.summaries.len() {
            FetchAction::FetchThread(self.summaries[self.next].id)
        } else {
            FetchAction::Done
        }
    }

    /// Records the board outcome.
    pub fn on_board(&mut self, outcome: Result<Board, Vec<GlowficError>>)
        requires
            continuity_fetch_wf(old(self)),
            old(self).board is None,
            old(self).failed is None,
        ensures
            continuity_fetch_wf(final(self)),
            match outcome {
                Ok(b) => final(self).board == Some(b) && final(self).failed is None,
                Err(es) => final(self).failed == Some(es) && final(self).board is None,
            },
            final(self).summaries == old(self).summaries,
            final(self).have_index == old(self).have_index,
            final(self).threads == old(self).threads,
            final(self).next == old(self).next,
    {
        match outcome {
            Ok(b) => {
                self.board = Some(b);
            },
            Err(es) => {
                self.failed = Some(es);
            },
        }
    }

    /// Records the post-index outcome.
    pub fn on_index(&mut self, outcome: Result<Vec<PostInBoard>, Vec<GlowficError>>)
        requires
            continuity_fetch_wf(old(self)),
            old(self).board is Some,
            !old(self).have_index,
            old(self).failed is None,
        ensures
            continuity_fetch_wf(final(self)),
            match outcome {
                Ok(ps) => {
                    &&& final(self).summaries == ps
                    &&& final(self).have_index
                    &&& final(self).failed is None
                },
                Err(es) => final(self).failed == Some(es) && !final(self).have_index,
            },
            final(self).board == old(self).board,
            final(self).threads == old(self).threads,
            final(self).next == old(self).next,
    {
        match outcome {
            Ok(ps) => {
                self.summaries = ps;
                self.have_index = true;
            },
            Err(es) => {
                self.failed = Some(es);
            },
        }
    }

    /// Records one thread outcome; threads accumulate in index order.
    pub fn on_thread(&mut self, outcome: Result<Thread, Vec<GlowficError>>)
        requires
            continuity_fetch_wf(old(self)),
            old(self).have_index,
            old(self).next < old(self).summaries@.len(),
            old(self).failed is None,
        ensures
            continuity_fetch_wf(final(self)),
            match outcome {
                Ok(t) => {
                    &&& final(self).threads@ == old(self).threads@.push(t)
                    &&& final(self).next == old(self).next + 1
                    &&& final(self).failed is None
                },
                Err(es) => {
                    &&& final(self).failed == Some(es)
                    &&& final(self).threads == old(self).threads
                    &&& final(self).next == old(self).next
                },
            },
            final(self).board == old(self).board,
            final(self).summaries == old(self).summaries,
            final(self).have_index == old(self).have_index,
    {
        match outcome {
            Ok(t) => {
                let bound = self.summaries.len();
                assert(self.next < bound);
                self.threads.push(t);
                self.next = self.next + 1;
            },
            Err(es) => {
                self.failed = Some(es);
            },
        }
    }

    /// The overall outcome, once `next_action` says `Done`: the first
    /// application error, or the assembled continuity.
    pub fn into_result(self) -> (r: Result<Continuity, Vec<GlowficError>>)
        requires
            continuity_fetch_wf(&self),
            self.failed is Some || (self.board is Some && self.have_index && self.next
                == self.summaries@.len()),
        ensures
            match self.failed {
                Some(es) => r == Err::<Continuity, Vec<GlowficError>>(es),
                None => r matches Ok(c) && Some(c.board) == self.board && c.threads
                    == self.threads,
            },
    {
        match self.failed {
            Some(es) => Err(es),
            None => match self.board {
                Some(board) => Ok(Continuity { board, threads: self.threads }),
                None => Err(Vec::new()),
            },
        }
    }
}

// ---------------------------------------------------------------------
// The image cache's wildcard lookup.  An image is cached under its
// key with whatever extension its true format earned, so a lookup
// collects every file whose name matches the key under any extension.

/// What a wildcard lookup of the image cache found.
pub enum ImageLookup {
    /// Exactly one file, of a recognised format: reuse it.
    Reuse(crate::utils::ImageMime),
    /// Several files under one key — extension drift from an earlier
    /// re-detection of the format: delete them all and re-fetch.
    CorruptDeleteAll,
    /// Nothing usable: fetch.
    Missing,
}

/// Decides what a wildcard lookup's matches mean.  One match of a
/// recognised format is reused without re-downloading; several
/// matches are cache corruption, to be deleted and re-fetched; none,
/// or one of unrecognised format, is a miss.
pub fn classify_image_matches(extensions: &Vec<String>) -> (r: ImageLookup)
    ensures
        extensions@.len() == 0 ==> r is Missing,
        extensions@.len() > 1 ==> r is CorruptDeleteAll,
        extensions@.len() == 1 ==> match crate::utils::spec_ext_to_mime(extensions@[0]@) {
            Some(m) => r == ImageLookup::Reuse(m),
            None => r is Missing,
        },
{
    if extensions.len() == 0 {
        ImageLookup::Missing
    } else if extensions.len() > 1 {
        ImageLookup::CorruptDeleteAll
    } else {
        match crate::utils::extension_to_image_mime(extensions[0].as_str()) {
            Some(m) => ImageLookup::Reuse(m),
            None => ImageLookup::Missing,
        }
    }
}

// ---------------------------------------------------------------------
// Content-idempotent writes.

/// Whether a cache file needs to be rewritten: only when its bytes
/// would change.  Skipping the write keeps modification times stable
/// for any build system keyed off them.
pub fn should_write(existing: Option<&Vec<u8>>, new_contents: &Vec<u8>) -> (r: bool)
    ensures
        r <==> match existing {
            Some(e) => e@ != new_contents@,
            None => true,
        },
{
    let e = match existing {
        Some(e) => e,
        None => { return true; },
    };
    if e.len() != new_contents.len() {
        proof {
            assert(e@.len() != new_contents@.len());
            assert(e@ != new_contents@);
        }
        return true;
    }
    let n = e.len();
    let mut i: usize = 0;
    while i < n
        invariant
            existing == Some(e),
            n == e@.len(),
            n == new_contents@.len(),
            i <= n,
            forall|m: int| 0 <= m < i ==> e@[m] == new_contents@[m],
        decreases n - i,
    {
        if e[i] != new_contents[i] {
            assert(e@[i as int] != new_contents@[i as int]);
            return true;
        }
        i = i + 1;
    }
    proof {
        assert(e@ =~= new_contents@);
    }
    false
}

} // verus!
