use vstd::prelude::*;

verus! {

/// A container of posts divided into ordered sections.
#[derive(Debug, Clone, PartialEq, Eq)]
pub struct Board {
    pub id: u64,
    pub name: String,
    pub board_sections: Vec<Section>,
}

/// A named, ordered subdivision of a board.
#[derive(Debug, Clone, PartialEq, Eq)]
pub struct Section {
    pub id: u64,
    pub name: String,
    pub order: u64,
}

/// A registered author account.
#[derive(Debug, Clone, PartialEq, Eq)]
pub struct User {
    pub id: u64,
    pub username: String,
}

/// A bearer credential obtained from the login endpoint.
#[derive(Debug, Clone, PartialEq, Eq)]
pub struct Token {
    pub token: String,
}

/// The board reference embedded in a post.
#[derive(Debug, Clone, PartialEq, Eq)]
pub struct BoardInPost {
    pub id: u64,
    pub name: String,
}

/// A character through which an author writes.
#[derive(Debug, Clone, PartialEq, Eq)]
pub struct Character {
    pub id: u64,
    pub name: String,
    pub screenname: Option<String>,
}

/// An avatar image; two icons denote the same image exactly when their
/// source URLs are equal.
#[derive(Debug, Clone, PartialEq, Eq)]
pub struct Icon {
    pub id: u64,
    pub keyword: Option<String>,
    pub url: Option<String>,
}

/// The head message of a thread.  Timestamps are Unix epoch seconds.
#[derive(Debug, Clone, PartialEq, Eq)]
pub struct Post {
    pub id: u64,
    pub authors: Vec<User>,
    pub board: BoardInPost,
    pub character: Option<Character>,
    pub content: String,
    pub created_at: i64,
    pub description: Option<String>,
    pub icon: Option<Icon>,
    pub num_replies: u64,
    pub section: Option<Section>,
    pub section_order: u64,
    pub status: String,
    pub subject: String,
    pub tagged_at: i64,
}

/// A single reply within a thread.  Timestamps are Unix epoch seconds.
#[derive(Debug, Clone, PartialEq, Eq)]
pub struct Reply {
    pub id: u64,
    pub character: Option<Character>,
    /// The name used for the character in this reply: an alias if one was
    /// used, or else the character's own name.
    pub character_name: Option<String>,
    pub content: String,
    pub created_at: i64,
    pub icon: Option<Icon>,
    pub updated_at: i64,
    pub user: User,
}

/// The lightweight post summary returned by a board's post index.
#[derive(Debug, Clone, PartialEq, Eq)]
pub struct PostInBoard {
    pub id: u64,
    pub authors: Vec<User>,
    pub board: BoardInPost,
    pub created_at: i64,
    pub description: Option<String>,
    pub num_replies: u64,
    pub section: Option<Section>,
    pub section_order: u64,
    pub status: String,
    pub subject: String,
    pub tagged_at: i64,
}

/// A post together with its replies, in API return order.
#[derive(Debug, Clone, PartialEq, Eq)]
pub struct Thread {
    pub post: Post,
    pub replies: Vec<Reply>,
}

/// A board together with all of its threads, assembled in memory at
/// request time and never persisted as such.
#[derive(Debug, Clone, PartialEq, Eq)]
pub struct Continuity {
    pub board: Board,
    pub threads: Vec<Thread>,
}

// Mathematical models.  Every contract in this crate speaks of these
// views rather than of the executable values themselves.

pub struct SectionV {
    pub id: u64,
    pub name: Seq<char>,
    pub order: u64,
}

pub struct BoardV {
    pub id: u64,
    pub name: Seq<char>,
    pub board_sections: Seq<SectionV>,
}

pub struct UserV {
    pub id: u64,
    pub username: Seq<char>,
}

pub struct TokenV {
    pub token: Seq<char>,
}

pub struct BoardInPostV {
    pub id: u64,
    pub name: Seq<char>,
}

pub struct CharacterV {
    pub id: u64,
    pub name: Seq<char>,
    pub screenname: Option<Seq<char>>,
}

pub struct IconV {
    pub id: u64,
    pub keyword: Option<Seq<char>>,
    pub url: Option<Seq<char>>,
}

pub struct PostV {
    pub id: u64,
    pub authors: Seq<UserV>,
    pub board: BoardInPostV,
    pub character: Option<CharacterV>,
    pub content: Seq<char>,
    pub created_at: i64,
    pub description: Option<Seq<char>>,
    pub icon: Option<IconV>,
    pub num_replies: u64,
    pub section: Option<SectionV>,
    pub section_order: u64,
    pub status: Seq<char>,
    pub subject: Seq<char>,
    pub tagged_at: i64,
}

pub struct ReplyV {
    pub id: u64,
    pub character: Option<CharacterV>,
    pub character_name: Option<Seq<char>>,
    pub content: Seq<char>,
    pub created_at: i64,
    pub icon: Option<IconV>,
    pub updated_at: i64,
    pub user: UserV,
}

pub struct PostInBoardV {
    pub id: u64,
    pub authors: Seq<UserV>,
    pub board: BoardInPostV,
    pub created_at: i64,
    pub description: Option<Seq<char>>,
    pub num_replies: u64,
    pub section: Option<SectionV>,
    pub section_order: u64,
    pub status: Seq<char>,
    pub subject: Seq<char>,
    pub tagged_at: i64,
}

pub struct ThreadV {
    pub post: PostV,
    pub replies: Seq<ReplyV>,
}

pub struct ContinuityV {
    pub board: BoardV,
    pub threads: Seq<ThreadV>,
}

pub open spec fn opt_str_view(o: Option<String>) -> Option<Seq<char>> {
    match o {
        Some(s) => Some(s@),
        None => None,
    }
}

impl View for Section {
    type V = SectionV;

    open spec fn view(&self) -> SectionV {
        SectionV { id: self.id, name: self.name@, order: self.order }
    }
}

impl View for Board {
    type V = BoardV;

    open spec fn view(&self) -> BoardV {
        BoardV {
            id: self.id,
            name: self.name@,
            board_sections: self.board_sections@.map_values(|s: Section| s@),
        }
    }
}

impl View for User {
    type V = UserV;

    open spec fn view(&self) -> UserV {
        UserV { id: self.id, username: self.username@ }
    }
}

impl View for Token {
    type V = TokenV;

    open spec fn view(&self) -> TokenV {
        TokenV { token: self.token@ }
    }
}

impl View for BoardInPost {
    type V = BoardInPostV;

    open spec fn view(&self) -> BoardInPostV {
        BoardInPostV { id: self.id, name: self.name@ }
    }
}

impl View for Character {
    type V = CharacterV;

    open spec fn view(&self) -> CharacterV {
        CharacterV {
            id: self.id,
            name: self.name@,
            screenname: opt_str_view(self.screenname),
        }
    }
}

impl View for Icon {
    type V = IconV;

    open spec fn view(&self) -> IconV {
        IconV {
            id: self.id,
            keyword: opt_str_view(self.keyword),
            url: opt_str_view(self.url),
        }
    }
}

pub open spec fn opt_character_view(o: Option<Character>) -> Option<CharacterV> {
    match o {
        Some(c) => Some(c@),
        None => None,
    }
}

pub open spec fn opt_icon_view(o: Option<Icon>) -> Option<IconV> {
    match o {
        Some(i) => Some(i@),
        None => None,
    }
}

pub open spec fn opt_section_view(o: Option<Section>) -> Option<SectionV> {
    match o {
        Some(s) => Some(s@),
        None => None,
    }
}

impl View for Post {
    type V = PostV;

    open spec fn view(&self) -> PostV {
        PostV {
            id: self.id,
            authors: self.authors@.map_values(|u: User| u@),
            board: self.board@,
            character: opt_character_view(self.character),
            content: self.content@,
            created_at: self.created_at,
            description: opt_str_view(self.description),
            icon: opt_icon_view(self.icon),
            num_replies: self.num_replies,
            section: opt_section_view(self.section),
            section_order: self.section_order,
            status: self.status@,
            subject: self.subject@,
            tagged_at: self.tagged_at,
        }
    }
}

impl View for Reply {
    type V = ReplyV;

    open spec fn view(&self) -> ReplyV {
        ReplyV {
            id: self.id,
            character: opt_character_view(self.character),
            character_name: opt_str_view(self.character_name),
            content: self.content@,
            created_at: self.created_at,
            icon: opt_icon_view(self.icon),
            updated_at: self.updated_at,
            user: self.user@,
        }
    }
}

impl View for PostInBoard {
    type V = PostInBoardV;

    open spec fn view(&self) -> PostInBoardV {
        PostInBoardV {
            id: self.id,
            authors: self.authors@.map_values(|u: User| u@),
            board: self.board@,
            created_at: self.created_at,
            description: opt_str_view(self.description),
            num_replies: self.num_replies,
            section: opt_section_view(self.section),
            section_order: self.section_order,
            status: self.status@,
            subject: self.subject@,
            tagged_at: self.tagged_at,
        }
    }
}

impl View for Thread {
    type V = ThreadV;

    open spec fn view(&self) -> ThreadV {
        ThreadV {
            post: self.post@,
            replies: self.replies@.map_values(|r: Reply| r@),
        }
    }
}

impl View for Continuity {
    type V = ContinuityV;

    open spec fn view(&self) -> ContinuityV {
        ContinuityV {
            board: self.board@,
            threads: self.threads@.map_values(|t: Thread| t@),
        }
    }
}

// ---------------------------------------------------------------------
// Assembly helpers: continuity-wide aggregates over the fetched parts.

/// A by-hand copy of a user; its contract, unlike a derived clone's,
/// states that the copy's model equals the original's.
pub fn clone_user(u: &User) -> (r: User)
    ensures
        r@ == u@,
{
    User { id: u.id, username: u.username.clone() }
}

impl Continuity {
    /// The earliest creation timestamp across all posts, used as
    /// deterministic metadata by the renderer.
    pub fn created_at(&self) -> (r: Option<i64>)
        ensures
            r is None <==> self@.threads.len() == 0,
            r matches Some(m) ==> (exists|i: int|
                0 <= i < self@.threads.len() && (#[trigger] self@.threads[i]).post.created_at
                    == m) && (forall|i: int|
                0 <= i < self@.threads.len() ==> m <= (
                #[trigger] self@.threads[i]).post.created_at),
    {
        let n = self.threads.len();
        if n == 0 {
            return None;
        }
        let mut best: i64 = self.threads[0].post.created_at;
        proof {
            assert(self@.threads[0].post.created_at == best);
        }
        let mut i: usize = 1;
        while i < n
            invariant
                1 <= i <= n,
                n == self.threads@.len(),
                self@.threads.len() == n,
                forall|k: int| 0 <= k < n ==> self@.threads[k] == self.threads@[k]@,
                exists|k: int| 0 <= k < i && (#[trigger] self@.threads[k]).post.created_at
                    == best,
                forall|k: int| 0 <= k < i ==> best <= (
                #[trigger] self@.threads[k]).post.created_at,
            decreases n - i,
        {
            let c = self.threads[i].post.created_at;
            proof {
                assert(self@.threads[i as int].post.created_at == c);
            }
            if c < best {
                best = c;
            }
            i = i + 1;
        }
        Some(best)
    }

    /// The latest activity timestamp across all posts.
    pub fn tagged_at(&self) -> (r: Option<i64>)
        ensures
            r is None <==> self@.threads.len() == 0,
            r matches Some(m) ==> (exists|i: int|
                0 <= i < self@.threads.len() && (#[trigger] self@.threads[i]).post.tagged_at
                    == m) && (forall|i: int|
                0 <= i < self@.threads.len() ==> (
                #[trigger] self@.threads[i]).post.tagged_at <= m),
    {
        let n = self.threads.len();
        if n == 0 {
            return None;
        }
        let mut best: i64 = self.threads[0].post.tagged_at;
        proof {
            assert(self@.threads[0].post.tagged_at == best);
        }
        let mut i: usize = 1;
        while i < n
            invariant
                1 <= i <= n,
                n == self.threads@.len(),
                self@.threads.len() == n,
                forall|k: int| 0 <= k < n ==> self@.threads[k] == self.threads@[k]@,
                exists|k: int| 0 <= k < i && (#[trigger] self@.threads[k]).post.tagged_at == best,
                forall|k: int| 0 <= k < i ==> (#[trigger] self@.threads[k]).post.tagged_at
                    <= best,
            decreases n - i,
        {
            let c = self.threads[i].post.tagged_at;
            proof {
                assert(self@.threads[i as int].post.tagged_at == c);
            }
            if c > best {
                best = c;
            }
            i = i + 1;
        }
        Some(best)
    }
}

/// Whether the pair `(i, j)` — thread `i`, author `j` — comes before
/// the scan position `(ti, tj)`.
pub open spec fn author_scanned(i: int, j: int, ti: int, tj: int) -> bool {
    i < ti || (i == ti && j < tj)
}

/// Whether `s` holds this exact user value.
pub open spec fn seq_has_user(s: Seq<User>, u: User) -> bool {
    exists|k: int| 0 <= k < s.len() && s[k] == u
}

/// Whether `s` holds a user with this id.
pub open spec fn seq_has_id(s: Seq<User>, id: u64) -> bool {
    exists|k: int| 0 <= k < s.len() && (#[trigger] s[k]).id == id
}

/// Whether some post of the continuity lists an author with this model.
pub open spec fn continuity_has_author(c: ContinuityV, u: UserV) -> bool {
    exists|i: int, j: int|
        0 <= i < c.threads.len() && 0 <= j < c.threads[i].post.authors.len() && (
        #[trigger] c.threads[i].post.authors[j]) == u
}

/// An id present in `prev` stays present in `cur` when every element
/// of `prev` occurs in `cur`.
proof fn lemma_has_id_transfer(prev: Seq<User>, cur: Seq<User>, id: u64)
    requires
        seq_has_id(prev, id),
        forall|m: int| 0 <= m < prev.len() ==> seq_has_user(cur, #[trigger] prev[m]),
    ensures
        seq_has_id(cur, id),
{
    let m = choose|m: int| 0 <= m < prev.len() && (#[trigger] prev[m]).id == id;
    assert(seq_has_user(cur, prev[m]));
    let k = choose|k: int| 0 <= k < cur.len() && cur[k] == prev[m];
    assert((#[trigger] cur[k]).id == id);
}

/// A user drawn from `prev` is an author of the continuity when every
/// element of `prev` is.
proof fn lemma_author_origin(c: ContinuityV, prev: Seq<User>, u: User)
    requires
        seq_has_user(prev, u),
        forall|k: int| 0 <= k < prev.len() ==> continuity_has_author(c, (#[trigger] prev[k])@),
    ensures
        continuity_has_author(c, u@),
{
    let k = choose|k: int| 0 <= k < prev.len() && prev[k] == u;
    assert(continuity_has_author(c, prev[k]@));
}

impl Continuity {
    /// The continuity-wide author set: the union of every post's
    /// authors, deduplicated by user id, in ascending id order.
    pub fn authors(&self) -> (r: Vec<User>)
        ensures
            forall|k1: int, k2: int|
                0 <= k1 < k2 < r@.len() ==> (#[trigger] r@[k1]).id < (#[trigger] r@[k2]).id,
            forall|k: int|
                0 <= k < r@.len() ==> continuity_has_author(self@, (#[trigger] r@[k])@),
            forall|i: int, j: int|
                0 <= i < self@.threads.len() && 0 <= j < self@.threads[i].post.authors.len()
                    ==> seq_has_id(r@, (#[trigger] self@.threads[i].post.authors[j]).id),
    {
        let mut out: Vec<User> = Vec::new();
        let tn = self.threads.len();
        let mut ti: usize = 0;
        while ti < tn
            invariant
                ti <= tn,
                tn == self.threads@.len(),
                self@.threads.len() == tn,
                forall|k: int| 0 <= k < tn ==> self@.threads[k] == self.threads@[k]@,
                forall|k1: int, k2: int|
                    0 <= k1 < k2 < out@.len() ==> (#[trigger] out@[k1]).id < (
                    #[trigger] out@[k2]).id,
                forall|k: int|
                    0 <= k < out@.len() ==> continuity_has_author(self@, (#[trigger] out@[k])@),
                forall|i: int, j: int|
                    0 <= i < tn && 0 <= j < self@.threads[i].post.authors.len()
                        && author_scanned(i, j, ti as int, 0) ==> seq_has_id(
                        out@,
                        (#[trigger] self@.threads[i].post.authors[j]).id,
                    ),
            decreases tn - ti,
        {
            let an = self.threads[ti].post.authors.len();
            let mut aj: usize = 0;
            while aj < an
                invariant
                    ti < tn,
                    aj <= an,
                    tn == self.threads@.len(),
                    self@.threads.len() == tn,
                    an == self@.threads[ti as int].post.authors.len(),
                    forall|k: int| 0 <= k < tn ==> self@.threads[k] == self.threads@[k]@,
                    forall|k1: int, k2: int|
                        0 <= k1 < k2 < out@.len() ==> (#[trigger] out@[k1]).id < (
                        #[trigger] out@[k2]).id,
                    forall|k: int|
                        0 <= k < out@.len() ==> continuity_has_author(
                            self@,
                            (#[trigger] out@[k])@,
                        ),
                    forall|i: int, j: int|
                        0 <= i < tn && 0 <= j < self@.threads[i].post.authors.len()
                            && author_scanned(i, j, ti as int, aj as int) ==> seq_has_id(
                            out@,
                            (#[trigger] self@.threads[i].post.authors[j]).id,
                        ),
                decreases an - aj,
            {
                let a = &self.threads[ti].post.authors[aj];
                proof {
                    assert(self@.threads[ti as int].post.authors[aj as int] == a@);
                }
                let ghost out_prev = out@;
                insert_author(&mut out, a);
                proof {
                    let tiv = ti as int;
                    let ajv = aj as int;
                    assert forall|k: int|
                        0 <= k < out@.len() implies continuity_has_author(
                        self@,
                        (#[trigger] out@[k])@,
                    ) by {
                        if out@[k]@ == a@ {
                            assert(self@.threads[tiv].post.authors[ajv] == a@);
                        } else {
                            lemma_author_origin(self@, out_prev, out@[k]);
                        }
                    }
                    assert forall|i: int, j: int|
                        0 <= i < tn && 0 <= j < self@.threads[i].post.authors.len()
                            && author_scanned(i, j, tiv, ajv + 1) implies seq_has_id(
                        out@,
                        (#[trigger] self@.threads[i].post.authors[j]).id,
                    ) by {
                        if i == tiv && j == ajv {
                            assert(seq_has_id(out@, a.id));
                        } else {
                            assert(author_scanned(i, j, tiv, ajv));
                            assert(seq_has_id(out_prev, self@.threads[i].post.authors[j].id));
                            lemma_has_id_transfer(
                                out_prev,
                                out@,
                                self@.threads[i].post.authors[j].id,
                            );
                        }
                    }
                }
                aj = aj + 1;
            }
            proof {
                let tiv = ti as int;
                assert forall|i: int, j: int|
                    0 <= i < tn && 0 <= j < self@.threads[i].post.authors.len()
                        && author_scanned(i, j, tiv + 1, 0) implies seq_has_id(
                    out@,
                    (#[trigger] self@.threads[i].post.authors[j]).id,
                ) by {
                    assert(author_scanned(i, j, tiv, an as int));
                }
            }
            ti = ti + 1;
        }
        out
    }
}

impl Continuity {
    /// The author set of one bucket of threads — a section's, or the
    /// sectionless bucket's — deduplicated by user id, in ascending
    /// id order.
    pub fn section_authors(&self, bucket: &Vec<usize>) -> (r: Vec<User>)
        requires
            forall|m: int|
                0 <= m < bucket@.len() ==> ((#[trigger] bucket@[m]) as int)
                    < self@.threads.len(),
        ensures
            forall|k1: int, k2: int|
                0 <= k1 < k2 < r@.len() ==> (#[trigger] r@[k1]).id < (#[trigger] r@[k2]).id,
            forall|k: int|
                0 <= k < r@.len() ==> continuity_has_author(self@, (#[trigger] r@[k])@),
            forall|m: int, j: int|
                0 <= m < bucket@.len() && 0 <= j < self@.threads[
                    bucket@[m] as int
                ].post.authors.len() ==> seq_has_id(
                    r@,
                    (#[trigger] self@.threads[bucket@[m] as int].post.authors[j]).id,
                ),
    {
        let mut out: Vec<User> = Vec::new();
        let bn = bucket.len();
        let mut bi: usize = 0;
        while bi < bn
            invariant
                bi <= bn,
                bn == bucket@.len(),
                self@.threads.len() == self.threads@.len(),
                forall|k: int| 0 <= k < self@.threads.len() ==> self@.threads[k]
                    == self.threads@[k]@,
                forall|m: int|
                    0 <= m < bn ==> ((#[trigger] bucket@[m]) as int) < self@.threads.len(),
                forall|k1: int, k2: int|
                    0 <= k1 < k2 < out@.len() ==> (#[trigger] out@[k1]).id < (
                    #[trigger] out@[k2]).id,
                forall|k: int|
                    0 <= k < out@.len() ==> continuity_has_author(self@, (#[trigger] out@[k])@),
                forall|m: int, j: int|
                    0 <= m < bi && 0 <= j < self@.threads[bucket@[m] as int].post.authors.len()
                        ==> seq_has_id(
                        out@,
                        (#[trigger] self@.threads[bucket@[m] as int].post.authors[j]).id,
                    ),
            decreases bn - bi,
        {
            let t = bucket[bi];
            let an = self.threads[t].post.authors.len();
            let mut aj: usize = 0;
            while aj < an
                invariant
                    bi < bn,
                    aj <= an,
                    bn == bucket@.len(),
                    t == bucket@[bi as int],
                    (t as int) < self@.threads.len(),
                    an == self@.threads[t as int].post.authors.len(),
                    self@.threads.len() == self.threads@.len(),
                    forall|k: int| 0 <= k < self@.threads.len() ==> self@.threads[k]
                        == self.threads@[k]@,
                    forall|k1: int, k2: int|
                        0 <= k1 < k2 < out@.len() ==> (#[trigger] out@[k1]).id < (
                        #[trigger] out@[k2]).id,
                    forall|k: int|
                        0 <= k < out@.len() ==> continuity_has_author(
                            self@,
                            (#[trigger] out@[k])@,
                        ),
                    forall|j: int|
                        0 <= j < aj ==> seq_has_id(
                            out@,
                            (#[trigger] self@.threads[t as int].post.authors[j]).id,
                        ),
                    forall|m: int, j: int|
                        0 <= m < bi && 0 <= j < self@.threads[
                            bucket@[m] as int
                        ].post.authors.len() ==> seq_has_id(
                            out@,
                            (#[trigger] self@.threads[bucket@[m] as int].post.authors[j]).id,
                        ),
                decreases an - aj,
            {
                let a = &self.threads[t].post.authors[aj];
                proof {
                    assert(self@.threads[t as int].post.authors[aj as int] == a@);
                }
                let ghost out_prev = out@;
                insert_author(&mut out, a);
                proof {
                    assert forall|k: int|
                        0 <= k < out@.len() implies continuity_has_author(
                        self@,
                        (#[trigger] out@[k])@,
                    ) by {
                        if out@[k]@ == a@ {
                            assert(self@.threads[t as int].post.authors[aj as int] == a@);
                        } else {
                            lemma_author_origin(self@, out_prev, out@[k]);
                        }
                    }
                    assert forall|j: int|
                        0 <= j < aj + 1 implies seq_has_id(
                        out@,
                        (#[trigger] self@.threads[t as int].post.authors[j]).id,
                    ) by {
                        if j == aj as int {
                            assert(seq_has_id(out@, a.id));
                        } else {
                            lemma_has_id_transfer(
                                out_prev,
                                out@,
                                self@.threads[t as int].post.authors[j].id,
                            );
                        }
                    }
                    assert forall|m: int, j: int|
                        0 <= m < bi && 0 <= j < self@.threads[
                            bucket@[m] as int
                        ].post.authors.len() implies seq_has_id(
                        out@,
                        (#[trigger] self@.threads[bucket@[m] as int].post.authors[j]).id,
                    ) by {
                        lemma_has_id_transfer(
                            out_prev,
                            out@,
                            self@.threads[bucket@[m] as int].post.authors[j].id,
                        );
                    }
                }
                aj = aj + 1;
            }
            proof {
                let ghost prev_out = out@;
                assert forall|m: int, j: int|
                    0 <= m < bi + 1 && 0 <= j < self@.threads[
                        bucket@[m] as int
                    ].post.authors.len() implies seq_has_id(
                    out@,
                    (#[trigger] self@.threads[bucket@[m] as int].post.authors[j]).id,
                ) by {}
            }
            bi = bi + 1;
        }
        out
    }
}

/// Inserts an author into an id-sorted vector, keeping it sorted and
/// deduplicated by id; an id that is already present is left as it is.
fn insert_author(out: &mut Vec<User>, a: &User)
    requires
        forall|k1: int, k2: int|
            0 <= k1 < k2 < old(out)@.len() ==> (#[trigger] old(out)@[k1]).id < (#[trigger] old(
                out,
            )@[k2]).id,
    ensures
        forall|k1: int, k2: int|
            0 <= k1 < k2 < final(out)@.len() ==> (#[trigger] final(out)@[k1]).id < (
            #[trigger] final(out)@[k2]).id,
        forall|k: int|
            0 <= k < final(out)@.len() ==> ((#[trigger] final(out)@[k])@ == a@ || seq_has_user(
                old(out)@,
                final(out)@[k],
            )),
        seq_has_id(final(out)@, a.id),
        forall|m: int|
            0 <= m < old(out)@.len() ==> seq_has_user(final(out)@, #[trigger] old(out)@[m]),
{
    let n = out.len();
    let mut pos: usize = 0;
    while pos < n && out[pos].id < a.id
        invariant
            pos <= n,
            n == out@.len(),
            *out == *old(out),
            forall|k1: int, k2: int|
                0 <= k1 < k2 < out@.len() ==> (#[trigger] out@[k1]).id < (
                #[trigger] out@[k2]).id,
            forall|k: int| 0 <= k < pos ==> (#[trigger] out@[k]).id < a.id,
        decreases n - pos,
    {
        pos = pos + 1;
    }
    if pos < n && out[pos].id == a.id {
        proof {
            assert(0 <= pos < out@.len() && (out@[pos as int]).id == a.id);
            assert forall|m: int|
                0 <= m < old(out)@.len() implies seq_has_user(
                out@,
                #[trigger] old(out)@[m],
            ) by {
                assert(out@[m] == old(out)@[m]);
            }
            assert forall|k: int|
                0 <= k < out@.len() implies ((#[trigger] out@[k])@ == a@ || seq_has_user(
                old(out)@,
                out@[k],
            )) by {
                assert(old(out)@[k] == out@[k]);
            }
        }
        return ;
    }
    let ghost prev = out@;
    let u = clone_user(a);
    out.insert(pos, u);
    proof {
        assert(out@ == prev.insert(pos as int, u));
        assert(forall|k: int| 0 <= k < pos ==> #[trigger] out@[k] == prev[k]);
        assert(out@[pos as int] == u);
        assert(forall|k: int| pos < k < out@.len() ==> #[trigger] out@[k] == prev[k - 1]);
        assert(pos < prev.len() ==> prev[pos as int].id > a.id);
        assert forall|k1: int, k2: int|
            0 <= k1 < k2 < out@.len() implies (#[trigger] out@[k1]).id < (
        #[trigger] out@[k2]).id by {
            if k2 == pos {
                assert(out@[k1] == prev[k1]);
            } else if k1 == pos {
                assert(out@[k2] == prev[k2 - 1]);
            } else if k1 < pos && k2 > pos {
                assert(out@[k1] == prev[k1]);
                assert(out@[k2] == prev[k2 - 1]);
            }
        }
        assert(seq_has_id(out@, a.id)) by {
            assert(0 <= pos < out@.len() && (out@[pos as int]).id == a.id);
        }
        assert forall|m: int| 0 <= m < prev.len() implies seq_has_user(
            out@,
            #[trigger] prev[m],
        ) by {
            if m < pos {
                assert(out@[m] == prev[m]);
            } else {
                assert(out@[m + 1] == prev[m]);
            }
        }
        assert forall|k: int|
            0 <= k < out@.len() implies ((#[trigger] out@[k])@ == a@ || seq_has_user(
            prev,
            out@[k],
        )) by {
            if k < pos {
                assert(out@[k] == prev[k]);
            } else if k > pos {
                assert(out@[k] == prev[k - 1]);
            }
        }
    }
}

// ---------------------------------------------------------------------
// Section assembly: every thread is bucketed into the section its
// post names (or the sectionless bucket), sections are ordered by
// their `order` field, and threads within a bucket are ordered by
// `section_order` ascending, ties broken by thread position.

/// A by-hand copy of a section whose contract states that the copy's
/// model equals the original's.
pub fn clone_section(s: &Section) -> (r: Section)
    ensures
        r@ == s@,
{
    Section { id: s.id, name: s.name.clone(), order: s.order }
}

/// Whether thread `i`'s post belongs to the section with id `sid`.
pub open spec fn thread_in_section(c: ContinuityV, i: int, sid: u64) -> bool {
    c.threads[i].post.section matches Some(s) && s.id == sid
}

/// Whether thread `i`'s post belongs to no section.
pub open spec fn thread_sectionless(c: ContinuityV, i: int) -> bool {
    c.threads[i].post.section is None
}

/// The bucket order: `section_order` ascending, ties broken by the
/// thread's position in the continuity.
pub open spec fn bucket_before(c: ContinuityV, a: int, b: int) -> bool {
    c.threads[a].post.section_order < c.threads[b].post.section_order || (
    c.threads[a].post.section_order == c.threads[b].post.section_order && a < b)
}

/// Whether the index sequence `b` holds the thread index `i`.
pub open spec fn idx_in(b: Seq<usize>, i: int) -> bool {
    exists|m: int| 0 <= m < b.len() && (#[trigger] b[m]) as int == i
}

/// What it means for `b` to be the bucket of section `sid`: it holds
/// exactly the threads of that section, in bucket order.
pub open spec fn section_bucket_ok(c: ContinuityV, sid: u64, b: Seq<usize>) -> bool {
    &&& forall|m: int|
        0 <= m < b.len() ==> ((#[trigger] b[m]) as int) < c.threads.len() && thread_in_section(
            c,
            b[m] as int,
            sid,
        )
    &&& forall|i: int| 0 <= i < c.threads.len() && thread_in_section(c, i, sid) ==> idx_in(b, i)
    &&& forall|m1: int, m2: int|
        0 <= m1 < m2 < b.len() ==> bucket_before(c, b[m1] as int, b[m2] as int)
}

/// What it means for `b` to be the sectionless bucket.
pub open spec fn sectionless_bucket_ok(c: ContinuityV, b: Seq<usize>) -> bool {
    &&& forall|m: int|
        0 <= m < b.len() ==> ((#[trigger] b[m]) as int) < c.threads.len()
            && thread_sectionless(c, b[m] as int)
    &&& forall|i: int| 0 <= i < c.threads.len() && thread_sectionless(c, i) ==> idx_in(b, i)
    &&& forall|m1: int, m2: int|
        0 <= m1 < m2 < b.len() ==> bucket_before(c, b[m1] as int, b[m2] as int)
}

/// A permutation of the indices `0..n`.
pub open spec fn is_index_permutation(perm: Seq<int>, n: int) -> bool {
    &&& perm.len() == n
    &&& forall|k: int| 0 <= k < n ==> 0 <= #[trigger] perm[k] < n
    &&& forall|k1: int, k2: int| 0 <= k1 < k2 < n ==> perm[k1] != perm[k2]
}

/// Inserts thread index `i` into a bucket kept in bucket order.  All
/// indices already present are smaller than `i`.
fn insert_bucket(c: &Continuity, out: &mut Vec<usize>, i: usize)
    requires
        i < c@.threads.len(),
        forall|m: int| 0 <= m < old(out)@.len() ==> ((#[trigger] old(out)@[m]) as int) < i,
        forall|m: int|
            0 <= m < old(out)@.len() ==> ((#[trigger] old(out)@[m]) as int)
                < c@.threads.len(),
        forall|m1: int, m2: int|
            0 <= m1 < m2 < old(out)@.len() ==> bucket_before(
                c@,
                old(out)@[m1] as int,
                old(out)@[m2] as int,
            ),
    ensures
        forall|m: int| 0 <= m < final(out)@.len() ==> (#[trigger] final(out)@[m]) as int <= i,
        forall|m: int|
            0 <= m < final(out)@.len() ==> ((#[trigger] final(out)@[m]) as int)
                < c@.threads.len(),
        forall|m1: int, m2: int|
            0 <= m1 < m2 < final(out)@.len() ==> bucket_before(
                c@,
                final(out)@[m1] as int,
                final(out)@[m2] as int,
            ),
        idx_in(final(out)@, i as int),
        forall|v: int| idx_in(old(out)@, v) ==> idx_in(final(out)@, v),
        forall|m: int|
            0 <= m < final(out)@.len() ==> (#[trigger] final(out)@[m]) as int == i || idx_in(
                old(out)@,
                final(out)@[m] as int,
            ),
{
    let so = c.threads[i].post.section_order;
    proof {
        assert(c@.threads[i as int] == c.threads@[i as int]@);
        assert(c@.threads[i as int].post.section_order == so);
    }
    let n = out.len();
    let mut pos: usize = 0;
    while pos < n && c.threads[out[pos]].post.section_order <= so
        invariant
            pos <= n,
            n == out@.len(),
            i < c@.threads.len(),
            c@.threads.len() == c.threads@.len(),
            forall|k: int| 0 <= k < c@.threads.len() ==> c@.threads[k] == c.threads@[k]@,
            so == c@.threads[i as int].post.section_order,
            *out == *old(out),
            forall|m: int| 0 <= m < out@.len() ==> ((#[trigger] out@[m]) as int) < i,
            forall|m: int|
                0 <= m < out@.len() ==> ((#[trigger] out@[m]) as int) < c@.threads.len(),
            forall|m1: int, m2: int|
                0 <= m1 < m2 < out@.len() ==> bucket_before(
                    c@,
                    out@[m1] as int,
                    out@[m2] as int,
                ),
            forall|m: int|
                0 <= m < pos ==> ((#[trigger] out@[m]) as int) < i && c@.threads[
                    out@[m] as int
                ].post.section_order <= so,
        decreases n - pos,
    {
        proof {
            assert(c@.threads[out@[pos as int] as int] == c.threads@[out@[pos as int] as int]@);
        }
        pos = pos + 1;
    }
    let ghost prev = out@;
    proof {
        if pos < n {
            assert(c@.threads[prev[pos as int] as int] == c.threads@[prev[pos as int] as int]@);
            assert(c@.threads[prev[pos as int] as int].post.section_order > so);
        }
    }
    out.insert(pos, i);
    proof {
        assert(out@ == prev.insert(pos as int, i));
        assert(forall|k: int| 0 <= k < pos ==> #[trigger] out@[k] == prev[k]);
        assert(out@[pos as int] == i);
        assert(forall|k: int| pos < k < out@.len() ==> #[trigger] out@[k] == prev[k - 1]);
        assert forall|m1: int, m2: int|
            0 <= m1 < m2 < out@.len() implies bucket_before(
            c@,
            out@[m1] as int,
            out@[m2] as int,
        ) by {
            if m2 == pos {
                assert(out@[m1] == prev[m1]);
                assert(c@.threads[prev[m1] as int].post.section_order <= so);
            } else if m1 == pos {
                assert(out@[m2] == prev[m2 - 1]);
                if m2 - 1 >= pos && pos < prev.len() {
                    if m2 - 1 == pos {
                        assert(c@.threads[prev[pos as int] as int].post.section_order > so);
                    } else {
                        assert(bucket_before(c@, prev[pos as int] as int, prev[m2 - 1] as int));
                        assert(c@.threads[prev[pos as int] as int].post.section_order > so);
                    }
                }
            } else if m1 < pos && m2 > pos {
                assert(out@[m1] == prev[m1]);
                assert(out@[m2] == prev[m2 - 1]);
                if m2 - 1 == m1 {
                    assert(c@.threads[prev[m1] as int].post.section_order <= so);
                    assert(pos < prev.len());
                    assert(c@.threads[prev[pos as int] as int].post.section_order > so);
                    assert(false);
                } else {
                    assert(bucket_before(c@, prev[m1] as int, prev[m2 - 1] as int));
                }
            }
        }
        assert(idx_in(out@, i as int)) by {
            assert(0 <= pos < out@.len() && (out@[pos as int]) as int == i as int);
        }
        assert forall|v: int| idx_in(prev, v) implies idx_in(out@, v) by {
            let m = choose|m: int| 0 <= m < prev.len() && (#[trigger] prev[m]) as int == v;
            if m < pos {
                assert((out@[m]) as int == v);
            } else {
                assert((out@[m + 1]) as int == v);
            }
        }
        assert forall|m: int|
            0 <= m < out@.len() && (#[trigger] out@[m]) as int != i implies idx_in(
            prev,
            out@[m] as int,
        ) by {
            if m < pos {
                assert(prev[m] == out@[m]);
            } else if m > pos {
                assert(prev[m - 1] == out@[m]);
            }
        }
    }
}

impl Continuity {
    /// The thread indices of the section with id `sid`, in bucket order.
    pub fn section_bucket(&self, sid: u64) -> (r: Vec<usize>)
        ensures
            section_bucket_ok(self@, sid, r@),
    {
        let mut out: Vec<usize> = Vec::new();
        let n = self.threads.len();
        let mut i: usize = 0;
        while i < n
            invariant
                i <= n,
                n == self.threads@.len(),
                self@.threads.len() == n,
                forall|k: int| 0 <= k < n ==> self@.threads[k] == self.threads@[k]@,
                forall|m: int| 0 <= m < out@.len() ==> ((#[trigger] out@[m]) as int) < i,
                forall|m: int|
                    0 <= m < out@.len() ==> ((#[trigger] out@[m]) as int)
                        < self@.threads.len() && thread_in_section(self@, out@[m] as int, sid),
                forall|m1: int, m2: int|
                    0 <= m1 < m2 < out@.len() ==> bucket_before(
                        self@,
                        out@[m1] as int,
                        out@[m2] as int,
                    ),
                forall|v: int| 0 <= v < i && thread_in_section(self@, v, sid) ==> idx_in(
                    out@,
                    v,
                ),
            decreases n - i,
        {
            let ghost prev = out@;
            let matches_sid = match &self.threads[i].post.section {
                Some(s) => s.id == sid,
                None => false,
            };
            proof {
                assert(self@.threads[i as int] == self.threads@[i as int]@);
                assert(matches_sid == thread_in_section(self@, i as int, sid));
            }
            if matches_sid {
                insert_bucket(self, &mut out, i);
                proof {
                    assert forall|m: int|
                        0 <= m < out@.len() implies ((#[trigger] out@[m]) as int) < i + 1 by {
                        if (out@[m]) as int != i as int {
                            assert(idx_in(prev, out@[m] as int));
                            let w = choose|w: int|
                                0 <= w < prev.len() && (#[trigger] prev[w]) as int == out@[
                                    m
                                ] as int;
                        }
                    }
                    assert forall|m: int|
                        0 <= m < out@.len() implies ((#[trigger] out@[m]) as int)
                            < self@.threads.len() && thread_in_section(
                            self@,
                            out@[m] as int,
                            sid,
                        ) by {
                        if (out@[m]) as int != i as int {
                            assert(idx_in(prev, out@[m] as int));
                            let w = choose|w: int|
                                0 <= w < prev.len() && (#[trigger] prev[w]) as int == out@[
                                    m
                                ] as int;
                            assert(thread_in_section(self@, prev[w] as int, sid));
                        }
                    }
                }
            }
            i = i + 1;
        }
        out
    }

    /// The thread indices of the sectionless bucket, in bucket order.
    pub fn sectionless_bucket(&self) -> (r: Vec<usize>)
        ensures
            sectionless_bucket_ok(self@, r@),
    {
        let mut out: Vec<usize> = Vec::new();
        let n = self.threads.len();
        let mut i: usize = 0;
        while i < n
            invariant
                i <= n,
                n == self.threads@.len(),
                self@.threads.len() == n,
                forall|k: int| 0 <= k < n ==> self@.threads[k] == self.threads@[k]@,
                forall|m: int| 0 <= m < out@.len() ==> ((#[trigger] out@[m]) as int) < i,
                forall|m: int|
                    0 <= m < out@.len() ==> ((#[trigger] out@[m]) as int)
                        < self@.threads.len() && thread_sectionless(self@, out@[m] as int),
                forall|m1: int, m2: int|
                    0 <= m1 < m2 < out@.len() ==> bucket_before(
                        self@,
                        out@[m1] as int,
                        out@[m2] as int,
                    ),
                forall|v: int| 0 <= v < i && thread_sectionless(self@, v) ==> idx_in(out@, v),
            decreases n - i,
        {
            let ghost prev = out@;
            let is_none = match &self.threads[i].post.section {
                Some(_) => false,
                None => true,
            };
            proof {
                assert(self@.threads[i as int] == self.threads@[i as int]@);
                assert(is_none == thread_sectionless(self@, i as int));
            }
            if is_none {
                insert_bucket(self, &mut out, i);
                proof {
                    assert forall|m: int|
                        0 <= m < out@.len() implies ((#[trigger] out@[m]) as int) < i + 1 by {
                        if (out@[m]) as int != i as int {
                            assert(idx_in(prev, out@[m] as int));
                            let w = choose|w: int|
                                0 <= w < prev.len() && (#[trigger] prev[w]) as int == out@[
                                    m
                                ] as int;
                        }
                    }
                    assert forall|m: int|
                        0 <= m < out@.len() implies ((#[trigger] out@[m]) as int)
                            < self@.threads.len() && thread_sectionless(
                            self@,
                            out@[m] as int,
                        ) by {
                        if (out@[m]) as int != i as int {
                            assert(idx_in(prev, out@[m] as int));
                            let w = choose|w: int|
                                0 <= w < prev.len() && (#[trigger] prev[w]) as int == out@[
                                    m
                                ] as int;
                            assert(thread_sectionless(self@, prev[w] as int));
                        }
                    }
                }
            }
            i = i + 1;
        }
        out
    }

    /// The synthetic section that stands for the unsectioned bucket:
    /// id 0, a fixed name, and an order no smaller than any real
    /// section's, so that it always sorts last.
    pub fn unsectioned_section(&self) -> (r: Section)
        ensures
            r@.id == 0,
            r@.name == "Unsectioned Posts"@,
            forall|k: int|
                0 <= k < self@.board.board_sections.len() ==> (
                #[trigger] self@.board.board_sections[k]).order <= r@.order,
    {
        let mut order: u64 = 0;
        let n = self.board.board_sections.len();
        let mut k: usize = 0;
        while k < n
            invariant
                k <= n,
                n == self.board.board_sections@.len(),
                self@.board.board_sections.len() == n,
                forall|m: int|
                    0 <= m < n ==> self@.board.board_sections[m]
                        == self.board.board_sections@[m]@,
                forall|m: int|
                    0 <= m < k ==> (#[trigger] self@.board.board_sections[m]).order <= order,
            decreases n - k,
        {
            let o = self.board.board_sections[k].order;
            proof {
                assert(self@.board.board_sections[k as int].order == o);
            }
            if o > order {
                order = o;
            }
            k = k + 1;
        }
        Section { id: 0, name: String::from_str("Unsectioned Posts"), order }
    }

    /// Assembles the continuity's sections: the board's sections
    /// sorted by `order` ascending, each paired with its bucket of
    /// thread indices, plus the sectionless bucket, which always comes
    /// last.
    pub fn sections(&self) -> (r: (Vec<(Section, Vec<usize>)>, Vec<usize>))
        ensures
            r.0@.len() == self@.board.board_sections.len(),
            exists|perm: Seq<int>|
                #[trigger] is_index_permutation(perm, self@.board.board_sections.len() as int)
                    && (forall|k: int|
                    0 <= k < r.0@.len() ==> (#[trigger] r.0@[k]).0@
                        == self@.board.board_sections[perm[k]]) && (forall|k1: int, k2: int|
                    #![trigger perm[k1], perm[k2]]
                    0 <= k1 < k2 < r.0@.len() && self@.board.board_sections[perm[k1]].order
                        == self@.board.board_sections[perm[k2]].order ==> perm[k1] < perm[k2]),
            forall|k1: int, k2: int|
                0 <= k1 < k2 < r.0@.len() ==> (#[trigger] r.0@[k1]).0@.order <= (
                #[trigger] r.0@[k2]).0@.order,
            forall|k: int|
                0 <= k < r.0@.len() ==> section_bucket_ok(
                    self@,
                    (#[trigger] r.0@[k]).0@.id,
                    r.0@[k].1@,
                ),
            sectionless_bucket_ok(self@, r.1@),
    {
        let secs = &self.board.board_sections;
        let n = secs.len();
        proof {
            assert(self@.board.board_sections.len() == n);
        }
        let mut perm: Vec<usize> = Vec::new();
        let mut i: usize = 0;
        while i < n
            invariant
                i <= n,
                n == self.board.board_sections@.len(),
                self@.board.board_sections.len() == n,
                forall|k: int|
                    0 <= k < n ==> self@.board.board_sections[k]
                        == self.board.board_sections@[k]@,
                perm@.len() == i,
                forall|k: int| 0 <= k < perm@.len() ==> ((#[trigger] perm@[k]) as int) < i,
                forall|k1: int, k2: int|
                    0 <= k1 < k2 < perm@.len() ==> perm@[k1] != perm@[k2],
                forall|v: int| 0 <= v < i ==> idx_in(perm@, v),
                forall|k1: int, k2: int|
                    0 <= k1 < k2 < perm@.len() ==> self@.board.board_sections[
                        perm@[k1] as int
                    ].order <= self@.board.board_sections[perm@[k2] as int].order,
                forall|k1: int, k2: int|
                    0 <= k1 < k2 < perm@.len() && self@.board.board_sections[
                        perm@[k1] as int
                    ].order == self@.board.board_sections[perm@[k2] as int].order ==> perm@[k1]
                        < perm@[k2],
            decreases n - i,
        {
            let ghost prev = perm@;
            insert_perm(self, &mut perm, i);
            i = i + 1;
        }
        let mut out: Vec<(Section, Vec<usize>)> = Vec::new();
        let mut k: usize = 0;
        while k < n
            invariant
                k <= n,
                n == self.board.board_sections@.len(),
                self@.board.board_sections.len() == n,
                forall|j: int|
                    0 <= j < n ==> self@.board.board_sections[j]
                        == self.board.board_sections@[j]@,
                perm@.len() == n,
                forall|j: int| 0 <= j < perm@.len() ==> ((#[trigger] perm@[j]) as int) < n,
                forall|k1: int, k2: int|
                    0 <= k1 < k2 < perm@.len() ==> perm@[k1] != perm@[k2],
                forall|k1: int, k2: int|
                    0 <= k1 < k2 < perm@.len() ==> self@.board.board_sections[
                        perm@[k1] as int
                    ].order <= self@.board.board_sections[perm@[k2] as int].order,
                forall|k1: int, k2: int|
                    0 <= k1 < k2 < perm@.len() && self@.board.board_sections[
                        perm@[k1] as int
                    ].order == self@.board.board_sections[perm@[k2] as int].order ==> perm@[k1]
                        < perm@[k2],
                out@.len() == k,
                forall|j: int|
                    0 <= j < out@.len() ==> (#[trigger] out@[j]).0@
                        == self@.board.board_sections[perm@[j] as int],
                forall|j: int|
                    0 <= j < out@.len() ==> section_bucket_ok(
                        self@,
                        (#[trigger] out@[j]).0@.id,
                        out@[j].1@,
                    ),
            decreases n - k,
        {
            let idx = perm[k];
            let sec = clone_section(&self.board.board_sections[idx]);
            proof {
                assert(self@.board.board_sections[idx as int]
                    == self.board.board_sections@[idx as int]@);
            }
            let bucket = self.section_bucket(sec.id);
            out.push((sec, bucket));
            k = k + 1;
        }
        let sectionless = self.sectionless_bucket();
        proof {
            let pm = perm@.map_values(|x: usize| x as int);
            assert(pm.len() == n);
            assert forall|j: int| 0 <= j < n as int implies 0 <= #[trigger] pm[j] < n as int by {
                assert(perm@[j] as int == pm[j]);
            }
            assert forall|k1: int, k2: int|
                0 <= k1 < k2 < n as int implies pm[k1] != pm[k2] by {
                assert(pm[k1] == perm@[k1] as int && pm[k2] == perm@[k2] as int);
            }
            assert(is_index_permutation(pm, self@.board.board_sections.len() as int));
            assert forall|k1: int, k2: int|
                #![trigger pm[k1], pm[k2]]
                0 <= k1 < k2 < out@.len() && self@.board.board_sections[pm[k1]].order
                    == self@.board.board_sections[pm[k2]].order implies pm[k1] < pm[k2] by {
                assert(pm[k1] == perm@[k1] as int && pm[k2] == perm@[k2] as int);
            }
            assert forall|j: int|
                0 <= j < out@.len() implies (#[trigger] out@[j]).0@
                    == self@.board.board_sections[pm[j]] by {
                assert(pm[j] == perm@[j] as int);
            }
            assert forall|k1: int, k2: int|
                0 <= k1 < k2 < out@.len() implies (#[trigger] out@[k1]).0@.order <= (
            #[trigger] out@[k2]).0@.order by {
                assert(out@[k1].0@ == self@.board.board_sections[perm@[k1] as int]);
                assert(out@[k2].0@ == self@.board.board_sections[perm@[k2] as int]);
            }
        }
        (out, sectionless)
    }
}

/// Inserts section index `i` into `perm`, kept sorted by the
/// sections' `order` ascending; indices already present are smaller.
fn insert_perm(c: &Continuity, perm: &mut Vec<usize>, i: usize)
    requires
        i < c@.board.board_sections.len(),
        old(perm)@.len() == i,
        forall|k: int| 0 <= k < old(perm)@.len() ==> ((#[trigger] old(perm)@[k]) as int) < i,
        forall|k1: int, k2: int|
            0 <= k1 < k2 < old(perm)@.len() ==> old(perm)@[k1] != old(perm)@[k2],
        forall|v: int| 0 <= v < i ==> idx_in(old(perm)@, v),
        forall|k1: int, k2: int|
            0 <= k1 < k2 < old(perm)@.len() ==> c@.board.board_sections[
                old(perm)@[k1] as int
            ].order <= c@.board.board_sections[old(perm)@[k2] as int].order,
        forall|k1: int, k2: int|
            0 <= k1 < k2 < old(perm)@.len() && c@.board.board_sections[
                old(perm)@[k1] as int
            ].order == c@.board.board_sections[old(perm)@[k2] as int].order ==> old(perm)@[k1]
                < old(perm)@[k2],
    ensures
        final(perm)@.len() == i + 1,
        forall|k: int|
            0 <= k < final(perm)@.len() ==> ((#[trigger] final(perm)@[k]) as int) < i + 1,
        forall|k1: int, k2: int|
            0 <= k1 < k2 < final(perm)@.len() ==> final(perm)@[k1] != final(perm)@[k2],
        forall|v: int| 0 <= v < i + 1 ==> idx_in(final(perm)@, v),
        forall|k1: int, k2: int|
            0 <= k1 < k2 < final(perm)@.len() ==> c@.board.board_sections[
                final(perm)@[k1] as int
            ].order <= c@.board.board_sections[final(perm)@[k2] as int].order,
        forall|k1: int, k2: int|
            0 <= k1 < k2 < final(perm)@.len() && c@.board.board_sections[
                final(perm)@[k1] as int
            ].order == c@.board.board_sections[final(perm)@[k2] as int].order
                ==> final(perm)@[k1] < final(perm)@[k2],
{
    let ord = c.board.board_sections[i].order;
    proof {
        assert(c@.board.board_sections[i as int] == c.board.board_sections@[i as int]@);
        assert(c@.board.board_sections[i as int].order == ord);
    }
    let n = perm.len();
    let mut pos: usize = 0;
    while pos < n && c.board.board_sections[perm[pos]].order <= ord
        invariant
            pos <= n,
            n == perm@.len(),
            i < c@.board.board_sections.len(),
            c@.board.board_sections.len() == c.board.board_sections@.len(),
            forall|k: int|
                0 <= k < c@.board.board_sections.len() ==> c@.board.board_sections[k]
                    == c.board.board_sections@[k]@,
            ord == c@.board.board_sections[i as int].order,
            *perm == *old(perm),
            forall|k: int| 0 <= k < perm@.len() ==> ((#[trigger] perm@[k]) as int) < i,
            forall|k1: int, k2: int|
                0 <= k1 < k2 < perm@.len() ==> c@.board.board_sections[
                    perm@[k1] as int
                ].order <= c@.board.board_sections[perm@[k2] as int].order,
            forall|k: int|
                0 <= k < pos ==> c@.board.board_sections[
                    (#[trigger] perm@[k]) as int
                ].order <= ord,
        decreases n - pos,
    {
        proof {
            assert(c@.board.board_sections[perm@[pos as int] as int] == c.board.board_sections@[
                perm@[pos as int] as int
            ]@);
        }
        pos = pos + 1;
    }
    let ghost prev = perm@;
    proof {
        if pos < n {
            assert(c@.board.board_sections[prev[pos as int] as int]
                == c.board.board_sections@[prev[pos as int] as int]@);
            assert(c@.board.board_sections[prev[pos as int] as int].order > ord);
        }
    }
    perm.insert(pos, i);
    proof {
        assert(perm@ == prev.insert(pos as int, i));
        assert(forall|k: int| 0 <= k < pos ==> #[trigger] perm@[k] == prev[k]);
        assert(perm@[pos as int] == i);
        assert(forall|k: int| pos < k < perm@.len() ==> #[trigger] perm@[k] == prev[k - 1]);
        assert forall|k1: int, k2: int|
            0 <= k1 < k2 < perm@.len() implies perm@[k1] != perm@[k2] by {
            if k1 == pos {
                assert(perm@[k2] == prev[k2 - 1]);
                assert(((prev[k2 - 1]) as int) < i);
            } else if k2 == pos {
                assert(perm@[k1] == prev[k1]);
                assert(((prev[k1]) as int) < i);
            } else if k1 < pos && k2 > pos {
                assert(perm@[k1] == prev[k1] && perm@[k2] == prev[k2 - 1]);
            }
        }
        assert forall|v: int| 0 <= v < i + 1 implies idx_in(perm@, v) by {
            if v == i as int {
                assert(0 <= pos < perm@.len() && (perm@[pos as int]) as int == v);
            } else {
                assert(idx_in(prev, v));
                let m = choose|m: int| 0 <= m < prev.len() && (#[trigger] prev[m]) as int == v;
                if m < pos {
                    assert((perm@[m]) as int == v);
                } else {
                    assert((perm@[m + 1]) as int == v);
                }
            }
        }
        assert forall|k1: int, k2: int|
            0 <= k1 < k2 < perm@.len() implies c@.board.board_sections[
            (#[trigger] perm@[k1]) as int
        ].order <= c@.board.board_sections[(#[trigger] perm@[k2]) as int].order by {
            if k2 == pos {
                assert(perm@[k1] == prev[k1]);
            } else if k1 == pos {
                assert(perm@[k2] == prev[k2 - 1]);
                if pos < prev.len() {
                    if k2 - 1 == pos {
                    } else {
                        assert(c@.board.board_sections[prev[pos as int] as int].order
                            <= c@.board.board_sections[prev[k2 - 1] as int].order);
                    }
                }
            } else if k1 < pos && k2 > pos {
                assert(perm@[k1] == prev[k1] && perm@[k2] == prev[k2 - 1]);
                if k2 - 1 == k1 {
                    assert(false);
                } else {
                    assert(c@.board.board_sections[prev[k1] as int].order
                        <= c@.board.board_sections[prev[k2 - 1] as int].order);
                }
            }
        }
        assert forall|k1: int, k2: int|
            0 <= k1 < k2 < perm@.len() && c@.board.board_sections[
                (#[trigger] perm@[k1]) as int
            ].order == c@.board.board_sections[
                (#[trigger] perm@[k2]) as int
            ].order implies perm@[k1] < perm@[k2] by {
            if k2 == pos {
                assert(perm@[k1] == prev[k1]);
                assert(((prev[k1]) as int) < i);
            } else if k1 == pos {
                assert(perm@[k2] == prev[k2 - 1]);
                assert(pos < prev.len());
                if k2 - 1 == pos {
                    assert(c@.board.board_sections[prev[pos as int] as int].order > ord);
                } else {
                    assert(c@.board.board_sections[prev[pos as int] as int].order
                        <= c@.board.board_sections[prev[k2 - 1] as int].order);
                    assert(c@.board.board_sections[prev[pos as int] as int].order > ord);
                }
                assert(false);
            } else if k1 < pos && k2 > pos {
                assert(perm@[k1] == prev[k1] && perm@[k2] == prev[k2 - 1]);
                if k2 - 1 == k1 {
                    assert(false);
                }
            } else if k2 < pos {
                assert(perm@[k1] == prev[k1] && perm@[k2] == prev[k2]);
            } else {
                assert(perm@[k1] == prev[k1 - 1] && perm@[k2] == prev[k2 - 1]);
            }
        }
    }
}

} // verus!
