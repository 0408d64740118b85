//! The cache envelope codec.  Every value that the disk cache stores is
//! written in a canonical JSON-shaped text, and each encoder here is
//! paired with a total decoder and a round-trip lemma: decoding an
//! encoding yields the original value.  The cache's "trust success"
//! policy rests on these lemmas.

use vstd::prelude::*;

use crate::api::{GlowficError, GlowficErrorV};
use crate::textfmt::{
    dec_i64_at, dec_lit, dec_of, dec_str_at, dec_u64_at, enc_i64, enc_str, expect_lit,
    lemma_assoc, lemma_dec_i64_consumes, lemma_dec_i64_round, lemma_dec_lit,
    lemma_dec_lit1, lemma_dec_str_consumes, lemma_head3,
    lemma_dec_str_round, lemma_dec_u64_consumes, lemma_dec_u64_round, parse_i64, parse_quoted,
    parse_u64, push_i64, push_lit, push_quoted, push_u64,
};
use crate::types::{
    Board, BoardInPost, BoardInPostV, BoardV, Character, CharacterV, Icon, IconV, Post,
    PostInBoard, PostInBoardV, PostV, Reply, ReplyV, Section, SectionV, User, UserV,
};

verus! {

// ---------------------------------------------------------------------
// Error messages: {"message":"..."}

pub open spec fn enc_error(e: GlowficErrorV) -> Seq<char> {
    "{\"message\":"@ + enc_str(e.message) + "}"@
}

pub open spec fn dec_error_at(s: Seq<char>) -> Option<(GlowficErrorV, Seq<char>)> {
    match dec_lit(s, "{\"message\":"@) {
        Some(s1) => match dec_str_at(s1) {
            Some((m, s2)) => match dec_lit(s2, "}"@) {
                Some(s3) => Some((GlowficErrorV { message: m }, s3)),
                None => None,
            },
            None => None,
        },
        None => None,
    }
}

pub fn encode_error(out: &mut String, e: &GlowficError)
    ensures
        final(out)@ == old(out)@ + enc_error(e@),
{
    push_lit(out, "{\"message\":");
    push_quoted(out, e.message.as_str());
    push_lit(out, "}");
    assert(final(out)@ =~= old(out)@ + enc_error(e@));
}

pub fn decode_error(v: &Vec<char>, i: usize) -> (r: Option<(GlowficError, usize)>)
    requires
        i <= v@.len(),
    ensures
        match r {
            Some(p) => i <= p.1 <= v@.len() && dec_error_at(v@.skip(i as int)) == Some(
                (p.0@, v@.skip(p.1 as int)),
            ),
            None => dec_error_at(v@.skip(i as int)) is None,
        },
{
    let j1 = match expect_lit(v, i, "{\"message\":") {
        Some(j) => j,
        None => { return None; },
    };
    let (message, j2) = match parse_quoted(v, j1) {
        Some(p) => p,
        None => { return None; },
    };
    let j3 = match expect_lit(v, j2, "}") {
        Some(j) => j,
        None => { return None; },
    };
    Some((GlowficError { message }, j3))
}

pub proof fn lemma_error_round(e: GlowficErrorV, rest: Seq<char>)
    ensures
        dec_error_at(enc_error(e) + rest) == Some((e, rest)),
{
    let l1 = "{\"message\":"@;
    let l2 = "}"@;
    let s = enc_error(e) + rest;
    assert(s =~= l1 + (enc_str(e.message) + (l2 + rest)));
    lemma_dec_lit(l1, enc_str(e.message) + (l2 + rest));
    lemma_dec_str_round(e.message, l2 + rest);
    lemma_dec_lit(l2, rest);
}

pub proof fn lemma_dec_error_consumes(s: Seq<char>)
    ensures
        dec_error_at(s) matches Some(p) ==> p.1.len() < s.len(),
{
    reveal_strlit("{\"message\":");
    reveal_strlit("}");
    if dec_error_at(s) is Some {
        match dec_lit(s, "{\"message\":"@) {
            Some(s1) => {
                lemma_dec_str_consumes(s1);
            },
            None => {},
        }
    }
}

// ---------------------------------------------------------------------
// Lists of error messages: [e1,e2,...]

pub open spec fn enc_errors_tail(xs: Seq<GlowficErrorV>) -> Seq<char>
    decreases xs.len(),
{
    if xs.len() == 0 {
        seq![']']
    } else {
        seq![','] + enc_error(xs[0]) + enc_errors_tail(xs.skip(1))
    }
}

pub open spec fn enc_errors(xs: Seq<GlowficErrorV>) -> Seq<char> {
    if xs.len() == 0 {
        "[]"@
    } else {
        seq!['['] + enc_error(xs[0]) + enc_errors_tail(xs.skip(1))
    }
}

pub open spec fn dec_errors_rest(s: Seq<char>) -> Option<(Seq<GlowficErrorV>, Seq<char>)>
    decreases s.len(),
    via dec_errors_rest_dec
{
    if s.len() > 0 && s[0] == ']' {
        Some((Seq::empty(), s.skip(1)))
    } else if s.len() > 0 && s[0] == ',' {
        match dec_error_at(s.skip(1)) {
            Some((x, s2)) => match dec_errors_rest(s2) {
                Some((xs, s3)) => Some((seq![x] + xs, s3)),
                None => None,
            },
            None => None,
        }
    } else {
        None
    }
}

#[via_fn]
proof fn dec_errors_rest_dec(s: Seq<char>) {
    if s.len() > 0 && s[0] == ',' {
        lemma_dec_error_consumes(s.skip(1));
    }
}

pub open spec fn dec_errors_at(s: Seq<char>) -> Option<(Seq<GlowficErrorV>, Seq<char>)> {
    match dec_lit(s, "["@) {
        Some(s1) => {
            if s1.len() > 0 && s1[0] == ']' {
                Some((Seq::empty(), s1.skip(1)))
            } else {
                match dec_error_at(s1) {
                    Some((x, s2)) => match dec_errors_rest(s2) {
                        Some((xs, s3)) => Some((seq![x] + xs, s3)),
                        None => None,
                    },
                    None => None,
                }
            }
        },
        None => None,
    }
}

pub proof fn lemma_errors_tail_round(xs: Seq<GlowficErrorV>, rest: Seq<char>)
    ensures
        dec_errors_rest(enc_errors_tail(xs) + rest) == Some((xs, rest)),
    decreases xs.len(),
{
    if xs.len() == 0 {
        let s = enc_errors_tail(xs) + rest;
        assert(s[0] == ']');
        assert(s.skip(1) =~= rest);
        assert(xs =~= Seq::<GlowficErrorV>::empty());
    } else {
        let s = enc_errors_tail(xs) + rest;
        assert(s[0] == ',');
        assert(s.skip(1) =~= enc_error(xs[0]) + (enc_errors_tail(xs.skip(1)) + rest));
        lemma_error_round(xs[0], enc_errors_tail(xs.skip(1)) + rest);
        lemma_errors_tail_round(xs.skip(1), rest);
        assert(seq![xs[0]] + xs.skip(1) =~= xs);
    }
}

pub proof fn lemma_errors_round(xs: Seq<GlowficErrorV>, rest: Seq<char>)
    ensures
        dec_errors_at(enc_errors(xs) + rest) == Some((xs, rest)),
{
    reveal_strlit("[");
    reveal_strlit("[]");
    reveal_strlit("{\"message\":");
    let s = enc_errors(xs) + rest;
    if xs.len() == 0 {
        assert(s =~= "["@ + (seq![']'] + rest));
        lemma_dec_lit("["@, seq![']'] + rest);
        assert((seq![']'] + rest)[0] == ']');
        assert((seq![']'] + rest).skip(1) =~= rest);
        assert(xs =~= Seq::<GlowficErrorV>::empty());
    } else {
        let body = enc_error(xs[0]) + (enc_errors_tail(xs.skip(1)) + rest);
        assert(s =~= "["@ + body);
        lemma_dec_lit("["@, body);
        assert(body[0] == '{');
        assert(body[0] != ']');
        assert(body =~= enc_error(xs[0]) + (enc_errors_tail(xs.skip(1)) + rest));
        lemma_error_round(xs[0], enc_errors_tail(xs.skip(1)) + rest);
        lemma_errors_tail_round(xs.skip(1), rest);
        assert(seq![xs[0]] + xs.skip(1) =~= xs);
    }
}

pub open spec fn errors_view(xs: Seq<GlowficError>) -> Seq<GlowficErrorV> {
    xs.map_values(|e: GlowficError| e@)
}

pub fn encode_errors(out: &mut String, xs: &Vec<GlowficError>)
    ensures
        final(out)@ == old(out)@ + enc_errors(errors_view(xs@)),
{
    let ghost m = errors_view(xs@);
    let n = xs.len();
    if n == 0 {
        push_lit(out, "[]");
        assert(final(out)@ =~= old(out)@ + enc_errors(m));
        return ;
    }
    push_lit(out, "[");
    encode_error(out, &xs[0]);
    proof {
        reveal_strlit("[");
        assert("["@ =~= seq!['[']);
        assert(old(out)@ + enc_errors(m) =~= out@ + enc_errors_tail(m.skip(1)));
    }
    let mut k: usize = 1;
    while k < n
        invariant
            1 <= k <= n,
            n == xs@.len(),
            m == errors_view(xs@),
            old(out)@ + enc_errors(m) == out@ + enc_errors_tail(m.skip(k as int)),
        decreases n - k,
    {
        let ghost out_prev = out@;
        push_lit(out, ",");
        encode_error(out, &xs[k]);
        proof {
            reveal_strlit(",");
            assert(","@ =~= seq![',']);
            assert(m.skip(k as int)[0] == m[k as int]);
            assert(m.skip(k as int).skip(1) =~= m.skip(k + 1));
            assert(enc_errors_tail(m.skip(k as int)) == seq![','] + enc_error(m[k as int])
                + enc_errors_tail(m.skip(k + 1)));
            assert(out@ =~= out_prev + seq![','] + enc_error(m[k as int]));
            assert(out_prev + enc_errors_tail(m.skip(k as int)) =~= out@ + enc_errors_tail(
                m.skip(k + 1),
            ));
        }
        k = k + 1;
    }
    proof {
        reveal_strlit("]");
        assert("]"@ =~= seq![']']);
        assert(m.skip(n as int) =~= Seq::<GlowficErrorV>::empty());
    }
    push_lit(out, "]");
    assert(final(out)@ =~= old(out)@ + enc_errors(m));
}

pub fn decode_errors(v: &Vec<char>, i: usize) -> (r: Option<(Vec<GlowficError>, usize)>)
    requires
        i <= v@.len(),
    ensures
        match r {
            Some(p) => i <= p.1 <= v@.len() && dec_errors_at(v@.skip(i as int)) == Some(
                (errors_view(p.0@), v@.skip(p.1 as int)),
            ),
            None => dec_errors_at(v@.skip(i as int)) is None,
        },
{
    let j0 = match expect_lit(v, i, "[") {
        Some(j) => j,
        None => { return None; },
    };
    let ghost s1 = v@.skip(j0 as int);
    if j0 < v.len() && v[j0] == ']' {
        proof {
            assert(s1[0] == v@[j0 as int]);
            assert(s1.skip(1) =~= v@.skip(j0 + 1));
            assert(errors_view(Seq::<GlowficError>::empty()) =~= Seq::<GlowficErrorV>::empty());
        }
        let empty: Vec<GlowficError> = Vec::new();
        return Some((empty, j0 + 1));
    }
    proof {
        if s1.len() > 0 {
            assert(s1[0] == v@[j0 as int]);
        }
    }
    let (e0, j1) = match decode_error(v, j0) {
        Some(p) => p,
        None => { return None; },
    };
    let mut acc: Vec<GlowficError> = Vec::new();
    acc.push(e0);
    let mut j = j1;
    proof {
        assert(errors_view(acc@) =~= seq![e0@]);
    }
    loop
        invariant
            i <= j <= v@.len(),
            dec_errors_at(v@.skip(i as int)) == match dec_errors_rest(v@.skip(j as int)) {
                Some(p) => Some((errors_view(acc@) + p.0, p.1)),
                None => None::<(Seq<GlowficErrorV>, Seq<char>)>,
            },
        decreases v@.len() - j,
    {
        let ghost cur = v@.skip(j as int);
        if j < v.len() && v[j] == ']' {
            proof {
                assert(cur[0] == v@[j as int]);
                assert(cur.skip(1) =~= v@.skip(j + 1));
                assert(errors_view(acc@) + Seq::<GlowficErrorV>::empty() =~= errors_view(acc@));
            }
            return Some((acc, j + 1));
        }
        if !(j < v.len() && v[j] == ',') {
            proof {
                if cur.len() > 0 {
                    assert(cur[0] == v@[j as int]);
                }
                assert(dec_errors_rest(cur) is None);
            }
            return None;
        }
        proof {
            assert(cur[0] == v@[j as int]);
            assert(cur.skip(1) =~= v@.skip(j + 1));
        }
        let (e, j2) = match decode_error(v, j + 1) {
            Some(p) => p,
            None => {
                proof {
                    assert(dec_errors_rest(cur) is None);
                }
                return None;
            },
        };
        let ghost acc_old = acc@;
        acc.push(e);
        proof {
            assert(errors_view(acc@) =~= errors_view(acc_old).push(e@));
            match dec_errors_rest(v@.skip(j2 as int)) {
                Some(p) => {
                    assert(dec_errors_rest(cur) == Some((seq![e@] + p.0, p.1)));
                    assert(errors_view(acc_old) + (seq![e@] + p.0) =~= errors_view(acc@) + p.0);
                },
                None => {},
            }
        }
        j = j2;
    }
}

// ---------------------------------------------------------------------
// Users: {"id":1,"username":"..."}

pub open spec fn enc_user(u: UserV) -> Seq<char> {
    "{\"id\":"@ + dec_of(u.id as nat) + ",\"username\":"@ + enc_str(u.username) + "}"@
}

pub open spec fn dec_user_at(s: Seq<char>) -> Option<(UserV, Seq<char>)> {
    match dec_lit(s, "{\"id\":"@) {
        Some(s1) => match dec_u64_at(s1) {
            Some((id, s2)) => match dec_lit(s2, ",\"username\":"@) {
                Some(s3) => match dec_str_at(s3) {
                    Some((username, s4)) => match dec_lit(s4, "}"@) {
                        Some(s5) => Some((UserV { id, username }, s5)),
                        None => None,
                    },
                    None => None,
                },
                None => None,
            },
            None => None,
        },
        None => None,
    }
}

pub fn encode_user(out: &mut String, u: &User)
    ensures
        final(out)@ == old(out)@ + enc_user(u@),
{
    push_lit(out, "{\"id\":");
    push_u64(out, u.id);
    push_lit(out, ",\"username\":");
    push_quoted(out, u.username.as_str());
    push_lit(out, "}");
    assert(final(out)@ =~= old(out)@ + enc_user(u@));
}

pub fn decode_user(v: &Vec<char>, i: usize) -> (r: Option<(User, usize)>)
    requires
        i <= v@.len(),
    ensures
        match r {
            Some(p) => i <= p.1 <= v@.len() && dec_user_at(v@.skip(i as int)) == Some(
                (p.0@, v@.skip(p.1 as int)),
            ),
            None => dec_user_at(v@.skip(i as int)) is None,
        },
{
    let j1 = match expect_lit(v, i, "{\"id\":") {
        Some(j) => j,
        None => { return None; },
    };
    let (id, j2) = match parse_u64(v, j1) {
        Some(p) => p,
        None => { return None; },
    };
    let j3 = match expect_lit(v, j2, ",\"username\":") {
        Some(j) => j,
        None => { return None; },
    };
    let (username, j4) = match parse_quoted(v, j3) {
        Some(p) => p,
        None => { return None; },
    };
    let j5 = match expect_lit(v, j4, "}") {
        Some(j) => j,
        None => { return None; },
    };
    Some((User { id, username }, j5))
}

pub proof fn lemma_user_round(u: UserV, rest: Seq<char>)
    ensures
        dec_user_at(enc_user(u) + rest) == Some((u, rest)),
{
    let l1 = "{\"id\":"@;
    let l2 = ",\"username\":"@;
    let l3 = "}"@;
    let s = enc_user(u) + rest;
    let t2 = enc_str(u.username) + (l3 + rest);
    let t1 = dec_of(u.id as nat) + (l2 + t2);
    assert(s =~= l1 + t1);
    lemma_dec_lit(l1, t1);
    reveal_strlit(",\"username\":");
    assert((l2 + t2)[0] == ',');
    lemma_dec_u64_round(u.id, l2 + t2);
    lemma_dec_lit(l2, t2);
    lemma_dec_str_round(u.username, l3 + rest);
    lemma_dec_lit(l3, rest);
}

pub proof fn lemma_dec_user_consumes(s: Seq<char>)
    ensures
        dec_user_at(s) matches Some(p) ==> p.1.len() < s.len(),
{
    reveal_strlit("{\"id\":");
    if dec_user_at(s) is Some {
        let s1 = dec_lit(s, "{\"id\":"@)->0;
        lemma_dec_u64_consumes(s1);
        let s2 = (dec_u64_at(s1)->0).1;
        let s3 = dec_lit(s2, ",\"username\":"@)->0;
        lemma_dec_str_consumes(s3);
    }
}

// ---------------------------------------------------------------------
// Lists of users.

pub open spec fn enc_users_tail(xs: Seq<UserV>) -> Seq<char>
    decreases xs.len(),
{
    if xs.len() == 0 {
        seq![']']
    } else {
        seq![','] + enc_user(xs[0]) + enc_users_tail(xs.skip(1))
    }
}

pub open spec fn enc_users(xs: Seq<UserV>) -> Seq<char> {
    if xs.len() == 0 {
        "[]"@
    } else {
        seq!['['] + enc_user(xs[0]) + enc_users_tail(xs.skip(1))
    }
}

pub open spec fn dec_users_rest(s: Seq<char>) -> Option<(Seq<UserV>, Seq<char>)>
    decreases s.len(),
    via dec_users_rest_dec
{
    if s.len() > 0 && s[0] == ']' {
        Some((Seq::empty(), s.skip(1)))
    } else if s.len() > 0 && s[0] == ',' {
        match dec_user_at(s.skip(1)) {
            Some((x, s2)) => match dec_users_rest(s2) {
                Some((xs, s3)) => Some((seq![x] + xs, s3)),
                None => None,
            },
            None => None,
        }
    } else {
        None
    }
}

#[via_fn]
proof fn dec_users_rest_dec(s: Seq<char>) {
    if s.len() > 0 && s[0] == ',' {
        lemma_dec_user_consumes(s.skip(1));
    }
}

pub open spec fn dec_users_at(s: Seq<char>) -> Option<(Seq<UserV>, Seq<char>)> {
    match dec_lit(s, "["@) {
        Some(s1) => {
            if s1.len() > 0 && s1[0] == ']' {
                Some((Seq::empty(), s1.skip(1)))
            } else {
                match dec_user_at(s1) {
                    Some((x, s2)) => match dec_users_rest(s2) {
                        Some((xs, s3)) => Some((seq![x] + xs, s3)),
                        None => None,
                    },
                    None => None,
                }
            }
        },
        None => None,
    }
}

pub proof fn lemma_users_tail_round(xs: Seq<UserV>, rest: Seq<char>)
    ensures
        dec_users_rest(enc_users_tail(xs) + rest) == Some((xs, rest)),
    decreases xs.len(),
{
    if xs.len() == 0 {
        let s = enc_users_tail(xs) + rest;
        assert(s[0] == ']');
        assert(s.skip(1) =~= rest);
        assert(xs =~= Seq::<UserV>::empty());
    } else {
        let s = enc_users_tail(xs) + rest;
        assert(s[0] == ',');
        assert(s.skip(1) =~= enc_user(xs[0]) + (enc_users_tail(xs.skip(1)) + rest));
        lemma_user_round(xs[0], enc_users_tail(xs.skip(1)) + rest);
        lemma_users_tail_round(xs.skip(1), rest);
        assert(seq![xs[0]] + xs.skip(1) =~= xs);
    }
}

pub proof fn lemma_users_round(xs: Seq<UserV>, rest: Seq<char>)
    ensures
        dec_users_at(enc_users(xs) + rest) == Some((xs, rest)),
{
    reveal_strlit("[");
    reveal_strlit("[]");
    reveal_strlit("{\"id\":");
    let s = enc_users(xs) + rest;
    if xs.len() == 0 {
        assert(s =~= "["@ + (seq![']'] + rest));
        lemma_dec_lit("["@, seq![']'] + rest);
        assert((seq![']'] + rest)[0] == ']');
        assert((seq![']'] + rest).skip(1) =~= rest);
        assert(xs =~= Seq::<UserV>::empty());
    } else {
        let body = enc_user(xs[0]) + (enc_users_tail(xs.skip(1)) + rest);
        assert(s =~= "["@ + body);
        lemma_dec_lit("["@, body);
        assert(body[0] == '{');
        assert(body[0] != ']');
        lemma_user_round(xs[0], enc_users_tail(xs.skip(1)) + rest);
        lemma_users_tail_round(xs.skip(1), rest);
        assert(seq![xs[0]] + xs.skip(1) =~= xs);
    }
}

pub proof fn lemma_dec_users_rest_consumes(s: Seq<char>)
    ensures
        dec_users_rest(s) matches Some(p) ==> p.1.len() < s.len(),
    decreases s.len(),
{
    if s.len() > 0 && s[0] == ',' {
        lemma_dec_user_consumes(s.skip(1));
        match dec_user_at(s.skip(1)) {
            Some((x, s2)) => {
                lemma_dec_users_rest_consumes(s2);
            },
            None => {},
        }
    }
}

pub proof fn lemma_dec_users_consumes(s: Seq<char>)
    ensures
        dec_users_at(s) matches Some(p) ==> p.1.len() < s.len(),
{
    reveal_strlit("[");
    if dec_users_at(s) is Some {
        let s1 = dec_lit(s, "["@)->0;
        if !(s1.len() > 0 && s1[0] == ']') {
            lemma_dec_user_consumes(s1);
            let s2 = (dec_user_at(s1)->0).1;
            lemma_dec_users_rest_consumes(s2);
        }
    }
}

pub open spec fn users_view(xs: Seq<User>) -> Seq<UserV> {
    xs.map_values(|u: User| u@)
}

pub fn encode_users(out: &mut String, xs: &Vec<User>)
    ensures
        final(out)@ == old(out)@ + enc_users(users_view(xs@)),
{
    let ghost m = users_view(xs@);
    let n = xs.len();
    if n == 0 {
        push_lit(out, "[]");
        assert(final(out)@ =~= old(out)@ + enc_users(m));
        return ;
    }
    push_lit(out, "[");
    encode_user(out, &xs[0]);
    proof {
        reveal_strlit("[");
        assert("["@ =~= seq!['[']);
        assert(old(out)@ + enc_users(m) =~= out@ + enc_users_tail(m.skip(1)));
    }
    let mut k: usize = 1;
    while k < n
        invariant
            1 <= k <= n,
            n == xs@.len(),
            m == users_view(xs@),
            old(out)@ + enc_users(m) == out@ + enc_users_tail(m.skip(k as int)),
        decreases n - k,
    {
        let ghost out_prev = out@;
        push_lit(out, ",");
        encode_user(out, &xs[k]);
        proof {
            reveal_strlit(",");
            assert(","@ =~= seq![',']);
            assert(m.skip(k as int)[0] == m[k as int]);
            assert(m.skip(k as int).skip(1) =~= m.skip(k + 1));
            assert(enc_users_tail(m.skip(k as int)) == seq![','] + enc_user(m[k as int])
                + enc_users_tail(m.skip(k + 1)));
            assert(out@ =~= out_prev + seq![','] + enc_user(m[k as int]));
            assert(out_prev + enc_users_tail(m.skip(k as int)) =~= out@ + enc_users_tail(
                m.skip(k + 1),
            ));
        }
        k = k + 1;
    }
    proof {
        reveal_strlit("]");
        assert("]"@ =~= seq![']']);
        assert(m.skip(n as int) =~= Seq::<UserV>::empty());
    }
    push_lit(out, "]");
    assert(final(out)@ =~= old(out)@ + enc_users(m));
}

pub fn decode_users(v: &Vec<char>, i: usize) -> (r: Option<(Vec<User>, usize)>)
    requires
        i <= v@.len(),
    ensures
        match r {
            Some(p) => i <= p.1 <= v@.len() && dec_users_at(v@.skip(i as int)) == Some(
                (users_view(p.0@), v@.skip(p.1 as int)),
            ),
            None => dec_users_at(v@.skip(i as int)) is None,
        },
{
    let j0 = match expect_lit(v, i, "[") {
        Some(j) => j,
        None => { return None; },
    };
    let ghost s1 = v@.skip(j0 as int);
    if j0 < v.len() && v[j0] == ']' {
        proof {
            assert(s1[0] == v@[j0 as int]);
            assert(s1.skip(1) =~= v@.skip(j0 + 1));
            assert(users_view(Seq::<User>::empty()) =~= Seq::<UserV>::empty());
        }
        let empty: Vec<User> = Vec::new();
        return Some((empty, j0 + 1));
    }
    proof {
        if s1.len() > 0 {
            assert(s1[0] == v@[j0 as int]);
        }
    }
    let (u0, j1) = match decode_user(v, j0) {
        Some(p) => p,
        None => { return None; },
    };
    let mut acc: Vec<User> = Vec::new();
    acc.push(u0);
    let mut j = j1;
    proof {
        assert(users_view(acc@) =~= seq![u0@]);
    }
    loop
        invariant
            i <= j <= v@.len(),
            dec_users_at(v@.skip(i as int)) == match dec_users_rest(v@.skip(j as int)) {
                Some(p) => Some((users_view(acc@) + p.0, p.1)),
                None => None::<(Seq<UserV>, Seq<char>)>,
            },
        decreases v@.len() - j,
    {
        let ghost cur = v@.skip(j as int);
        if j < v.len() && v[j] == ']' {
            proof {
                assert(cur[0] == v@[j as int]);
                assert(cur.skip(1) =~= v@.skip(j + 1));
                assert(users_view(acc@) + Seq::<UserV>::empty() =~= users_view(acc@));
            }
            return Some((acc, j + 1));
        }
        if !(j < v.len() && v[j] == ',') {
            proof {
                if cur.len() > 0 {
                    assert(cur[0] == v@[j as int]);
                }
                assert(dec_users_rest(cur) is None);
            }
            return None;
        }
        proof {
            assert(cur[0] == v@[j as int]);
            assert(cur.skip(1) =~= v@.skip(j + 1));
        }
        let (u, j2) = match decode_user(v, j + 1) {
            Some(p) => p,
            None => {
                proof {
                    assert(dec_users_rest(cur) is None);
                }
                return None;
            },
        };
        let ghost acc_old = acc@;
        acc.push(u);
        proof {
            assert(users_view(acc@) =~= users_view(acc_old).push(u@));
            match dec_users_rest(v@.skip(j2 as int)) {
                Some(p) => {
                    assert(dec_users_rest(cur) == Some((seq![u@] + p.0, p.1)));
                    assert(users_view(acc_old) + (seq![u@] + p.0) =~= users_view(acc@) + p.0);
                },
                None => {},
            }
        }
        j = j2;
    }
}

// ---------------------------------------------------------------------
// Sections: {"id":1,"name":"...","order":2}

pub open spec fn enc_section(x: SectionV) -> Seq<char> {
    "{\"id\":"@ + dec_of(x.id as nat) + ",\"name\":"@ + enc_str(x.name) + ",\"order\":"@ + dec_of(
        x.order as nat,
    ) + "}"@
}

pub open spec fn dec_section_at(s: Seq<char>) -> Option<(SectionV, Seq<char>)> {
    match dec_lit(s, "{\"id\":"@) {
        Some(s1) => match dec_u64_at(s1) {
            Some((id, s2)) => match dec_lit(s2, ",\"name\":"@) {
                Some(s3) => match dec_str_at(s3) {
                    Some((name, s4)) => match dec_lit(s4, ",\"order\":"@) {
                        Some(s5) => match dec_u64_at(s5) {
                            Some((order, s6)) => match dec_lit(s6, "}"@) {
                                Some(s7) => Some((SectionV { id, name, order }, s7)),
                                None => None,
                            },
                            None => None,
                        },
                        None => None,
                    },
                    None => None,
                },
                None => None,
            },
            None => None,
        },
        None => None,
    }
}

pub fn encode_section(out: &mut String, x: &Section)
    ensures
        final(out)@ == old(out)@ + enc_section(x@),
{
    push_lit(out, "{\"id\":");
    push_u64(out, x.id);
    push_lit(out, ",\"name\":");
    push_quoted(out, x.name.as_str());
    push_lit(out, ",\"order\":");
    push_u64(out, x.order);
    push_lit(out, "}");
    assert(final(out)@ =~= old(out)@ + enc_section(x@));
}

pub fn decode_section(v: &Vec<char>, i: usize) -> (r: Option<(Section, usize)>)
    requires
        i <= v@.len(),
    ensures
        match r {
            Some(p) => i <= p.1 <= v@.len() && dec_section_at(v@.skip(i as int)) == Some(
                (p.0@, v@.skip(p.1 as int)),
            ),
            None => dec_section_at(v@.skip(i as int)) is None,
        },
{
    let j1 = match expect_lit(v, i, "{\"id\":") {
        Some(j) => j,
        None => { return None; },
    };
    let (id, j2) = match parse_u64(v, j1) {
        Some(p) => p,
        None => { return None; },
    };
    let j3 = match expect_lit(v, j2, ",\"name\":") {
        Some(j) => j,
        None => { return None; },
    };
    let (name, j4) = match parse_quoted(v, j3) {
        Some(p) => p,
        None => { return None; },
    };
    let j5 = match expect_lit(v, j4, ",\"order\":") {
        Some(j) => j,
        None => { return None; },
    };
    let (order, j6) = match parse_u64(v, j5) {
        Some(p) => p,
        None => { return None; },
    };
    let j7 = match expect_lit(v, j6, "}") {
        Some(j) => j,
        None => { return None; },
    };
    Some((Section { id, name, order }, j7))
}

pub proof fn lemma_section_round(x: SectionV, rest: Seq<char>)
    ensures
        dec_section_at(enc_section(x) + rest) == Some((x, rest)),
{
    let l1 = "{\"id\":"@;
    let l2 = ",\"name\":"@;
    let l3 = ",\"order\":"@;
    let l4 = "}"@;
    let s = enc_section(x) + rest;
    let t3 = dec_of(x.order as nat) + (l4 + rest);
    let t2 = enc_str(x.name) + (l3 + t3);
    let t1 = dec_of(x.id as nat) + (l2 + t2);
    assert(s =~= l1 + t1);
    lemma_dec_lit(l1, t1);
    reveal_strlit(",\"name\":");
    assert((l2 + t2)[0] == ',');
    lemma_dec_u64_round(x.id, l2 + t2);
    lemma_dec_lit(l2, t2);
    lemma_dec_str_round(x.name, l3 + t3);
    lemma_dec_lit(l3, t3);
    reveal_strlit("}");
    assert((l4 + rest)[0] == '}');
    lemma_dec_u64_round(x.order, l4 + rest);
    lemma_dec_lit(l4, rest);
}

pub proof fn lemma_dec_section_consumes(s: Seq<char>)
    ensures
        dec_section_at(s) matches Some(p) ==> p.1.len() < s.len(),
{
    reveal_strlit("{\"id\":");
    if dec_section_at(s) is Some {
        let s1 = dec_lit(s, "{\"id\":"@)->0;
        lemma_dec_u64_consumes(s1);
        let s2 = (dec_u64_at(s1)->0).1;
        let s3 = dec_lit(s2, ",\"name\":"@)->0;
        lemma_dec_str_consumes(s3);
        let s4 = (dec_str_at(s3)->0).1;
        let s5 = dec_lit(s4, ",\"order\":"@)->0;
        lemma_dec_u64_consumes(s5);
    }
}

// ---------------------------------------------------------------------
// Lists of sections.

pub open spec fn enc_sections_tail(xs: Seq<SectionV>) -> Seq<char>
    decreases xs.len(),
{
    if xs.len() == 0 {
        seq![']']
    } else {
        seq![','] + enc_section(xs[0]) + enc_sections_tail(xs.skip(1))
    }
}

pub open spec fn enc_sections(xs: Seq<SectionV>) -> Seq<char> {
    if xs.len() == 0 {
        "[]"@
    } else {
        seq!['['] + enc_section(xs[0]) + enc_sections_tail(xs.skip(1))
    }
}

pub open spec fn dec_sections_rest(s: Seq<char>) -> Option<(Seq<SectionV>, Seq<char>)>
    decreases s.len(),
    via dec_sections_rest_dec
{
    if s.len() > 0 && s[0] == ']' {
        Some((Seq::empty(), s.skip(1)))
    } else if s.len() > 0 && s[0] == ',' {
        match dec_section_at(s.skip(1)) {
            Some((x, s2)) => match dec_sections_rest(s2) {
                Some((xs, s3)) => Some((seq![x] + xs, s3)),
                None => None,
            },
            None => None,
        }
    } else {
        None
    }
}

#[via_fn]
proof fn dec_sections_rest_dec(s: Seq<char>) {
    if s.len() > 0 && s[0] == ',' {
        lemma_dec_section_consumes(s.skip(1));
    }
}

pub open spec fn dec_sections_at(s: Seq<char>) -> Option<(Seq<SectionV>, Seq<char>)> {
    match dec_lit(s, "["@) {
        Some(s1) => {
            if s1.len() > 0 && s1[0] == ']' {
                Some((Seq::empty(), s1.skip(1)))
            } else {
                match dec_section_at(s1) {
                    Some((x, s2)) => match dec_sections_rest(s2) {
                        Some((xs, s3)) => Some((seq![x] + xs, s3)),
                        None => None,
                    },
                    None => None,
                }
            }
        },
        None => None,
    }
}

pub proof fn lemma_sections_tail_round(xs: Seq<SectionV>, rest: Seq<char>)
    ensures
        dec_sections_rest(enc_sections_tail(xs) + rest) == Some((xs, rest)),
    decreases xs.len(),
{
    if xs.len() == 0 {
        let s = enc_sections_tail(xs) + rest;
        assert(s[0] == ']');
        assert(s.skip(1) =~= rest);
        assert(xs =~= Seq::<SectionV>::empty());
    } else {
        let s = enc_sections_tail(xs) + rest;
        assert(s[0] == ',');
        assert(s.skip(1) =~= enc_section(xs[0]) + (enc_sections_tail(xs.skip(1)) + rest));
        lemma_section_round(xs[0], enc_sections_tail(xs.skip(1)) + rest);
        lemma_sections_tail_round(xs.skip(1), rest);
        assert(seq![xs[0]] + xs.skip(1) =~= xs);
    }
}

pub proof fn lemma_sections_round(xs: Seq<SectionV>, rest: Seq<char>)
    ensures
        dec_sections_at(enc_sections(xs) + rest) == Some((xs, rest)),
{
    reveal_strlit("[");
    reveal_strlit("[]");
    reveal_strlit("{\"id\":");
    let s = enc_sections(xs) + rest;
    if xs.len() == 0 {
        assert(s =~= "["@ + (seq![']'] + rest));
        lemma_dec_lit("["@, seq![']'] + rest);
        assert((seq![']'] + rest)[0] == ']');
        assert((seq![']'] + rest).skip(1) =~= rest);
        assert(xs =~= Seq::<SectionV>::empty());
    } else {
        let body = enc_section(xs[0]) + (enc_sections_tail(xs.skip(1)) + rest);
        assert(s =~= "["@ + body);
        lemma_dec_lit("["@, body);
        assert(body[0] == '{');
        assert(body[0] != ']');
        lemma_section_round(xs[0], enc_sections_tail(xs.skip(1)) + rest);
        lemma_sections_tail_round(xs.skip(1), rest);
        assert(seq![xs[0]] + xs.skip(1) =~= xs);
    }
}

pub open spec fn sections_view(xs: Seq<Section>) -> Seq<SectionV> {
    xs.map_values(|x: Section| x@)
}

pub fn encode_sections(out: &mut String, xs: &Vec<Section>)
    ensures
        final(out)@ == old(out)@ + enc_sections(sections_view(xs@)),
{
    let ghost m = sections_view(xs@);
    let n = xs.len();
    if n == 0 {
        push_lit(out, "[]");
        assert(final(out)@ =~= old(out)@ + enc_sections(m));
        return ;
    }
    push_lit(out, "[");
    encode_section(out, &xs[0]);
    proof {
        reveal_strlit("[");
        assert("["@ =~= seq!['[']);
        assert(old(out)@ + enc_sections(m) =~= out@ + enc_sections_tail(m.skip(1)));
    }
    let mut k: usize = 1;
    while k < n
        invariant
            1 <= k <= n,
            n == xs@.len(),
            m == sections_view(xs@),
            old(out)@ + enc_sections(m) == out@ + enc_sections_tail(m.skip(k as int)),
        decreases n - k,
    {
        let ghost out_prev = out@;
        push_lit(out, ",");
        encode_section(out, &xs[k]);
        proof {
            reveal_strlit(",");
            assert(","@ =~= seq![',']);
            assert(m.skip(k as int)[0] == m[k as int]);
            assert(m.skip(k as int).skip(1) =~= m.skip(k + 1));
            assert(enc_sections_tail(m.skip(k as int)) == seq![','] + enc_section(m[k as int])
                + enc_sections_tail(m.skip(k + 1)));
            assert(out@ =~= out_prev + seq![','] + enc_section(m[k as int]));
            assert(out_prev + enc_sections_tail(m.skip(k as int)) =~= out@ + enc_sections_tail(
                m.skip(k + 1),
            ));
        }
        k = k + 1;
    }
    proof {
        reveal_strlit("]");
        assert("]"@ =~= seq![']']);
        assert(m.skip(n as int) =~= Seq::<SectionV>::empty());
    }
    push_lit(out, "]");
    assert(final(out)@ =~= old(out)@ + enc_sections(m));
}

pub fn decode_sections(v: &Vec<char>, i: usize) -> (r: Option<(Vec<Section>, usize)>)
    requires
        i <= v@.len(),
    ensures
        match r {
            Some(p) => i <= p.1 <= v@.len() && dec_sections_at(v@.skip(i as int)) == Some(
                (sections_view(p.0@), v@.skip(p.1 as int)),
            ),
            None => dec_sections_at(v@.skip(i as int)) is None,
        },
{
    let j0 = match expect_lit(v, i, "[") {
        Some(j) => j,
        None => { return None; },
    };
    let ghost s1 = v@.skip(j0 as int);
    if j0 < v.len() && v[j0] == ']' {
        proof {
            assert(s1[0] == v@[j0 as int]);
            assert(s1.skip(1) =~= v@.skip(j0 + 1));
            assert(sections_view(Seq::<Section>::empty()) =~= Seq::<SectionV>::empty());
        }
        let empty: Vec<Section> = Vec::new();
        return Some((empty, j0 + 1));
    }
    proof {
        if s1.len() > 0 {
            assert(s1[0] == v@[j0 as int]);
        }
    }
    let (x0, j1) = match decode_section(v, j0) {
        Some(p) => p,
        None => { return None; },
    };
    let mut acc: Vec<Section> = Vec::new();
    acc.push(x0);
    let mut j = j1;
    proof {
        assert(sections_view(acc@) =~= seq![x0@]);
    }
    loop
        invariant
            i <= j <= v@.len(),
            dec_sections_at(v@.skip(i as int)) == match dec_sections_rest(v@.skip(j as int)) {
                Some(p) => Some((sections_view(acc@) + p.0, p.1)),
                None => None::<(Seq<SectionV>, Seq<char>)>,
            },
        decreases v@.len() - j,
    {
        let ghost cur = v@.skip(j as int);
        if j < v.len() && v[j] == ']' {
            proof {
                assert(cur[0] == v@[j as int]);
                assert(cur.skip(1) =~= v@.skip(j + 1));
                assert(sections_view(acc@) + Seq::<SectionV>::empty() =~= sections_view(acc@));
            }
            return Some((acc, j + 1));
        }
        if !(j < v.len() && v[j] == ',') {
            proof {
                if cur.len() > 0 {
                    assert(cur[0] == v@[j as int]);
                }
                assert(dec_sections_rest(cur) is None);
            }
            return None;
        }
        proof {
            assert(cur[0] == v@[j as int]);
            assert(cur.skip(1) =~= v@.skip(j + 1));
        }
        let (x, j2) = match decode_section(v, j + 1) {
            Some(p) => p,
            None => {
                proof {
                    assert(dec_sections_rest(cur) is None);
                }
                return None;
            },
        };
        let ghost acc_old = acc@;
        acc.push(x);
        proof {
            assert(sections_view(acc@) =~= sections_view(acc_old).push(x@));
            match dec_sections_rest(v@.skip(j2 as int)) {
                Some(p) => {
                    assert(dec_sections_rest(cur) == Some((seq![x@] + p.0, p.1)));
                    assert(sections_view(acc_old) + (seq![x@] + p.0) =~= sections_view(acc@)
                        + p.0);
                },
                None => {},
            }
        }
        j = j2;
    }
}

// ---------------------------------------------------------------------
// The board reference inside a post: {"id":1,"name":"..."}

pub open spec fn enc_board_in_post(x: BoardInPostV) -> Seq<char> {
    "{\"id\":"@ + dec_of(x.id as nat) + ",\"name\":"@ + enc_str(x.name) + "}"@
}

pub open spec fn dec_board_in_post_at(s: Seq<char>) -> Option<(BoardInPostV, Seq<char>)> {
    match dec_lit(s, "{\"id\":"@) {
        Some(s1) => match dec_u64_at(s1) {
            Some((id, s2)) => match dec_lit(s2, ",\"name\":"@) {
                Some(s3) => match dec_str_at(s3) {
                    Some((name, s4)) => match dec_lit(s4, "}"@) {
                        Some(s5) => Some((BoardInPostV { id, name }, s5)),
                        None => None,
                    },
                    None => None,
                },
                None => None,
            },
            None => None,
        },
        None => None,
    }
}

pub fn encode_board_in_post(out: &mut String, x: &BoardInPost)
    ensures
        final(out)@ == old(out)@ + enc_board_in_post(x@),
{
    push_lit(out, "{\"id\":");
    push_u64(out, x.id);
    push_lit(out, ",\"name\":");
    push_quoted(out, x.name.as_str());
    push_lit(out, "}");
    assert(final(out)@ =~= old(out)@ + enc_board_in_post(x@));
}

pub fn decode_board_in_post(v: &Vec<char>, i: usize) -> (r: Option<(BoardInPost, usize)>)
    requires
        i <= v@.len(),
    ensures
        match r {
            Some(p) => i <= p.1 <= v@.len() && dec_board_in_post_at(v@.skip(i as int)) == Some(
                (p.0@, v@.skip(p.1 as int)),
            ),
            None => dec_board_in_post_at(v@.skip(i as int)) is None,
        },
{
    let j1 = match expect_lit(v, i, "{\"id\":") {
        Some(j) => j,
        None => { return None; },
    };
    let (id, j2) = match parse_u64(v, j1) {
        Some(p) => p,
        None => { return None; },
    };
    let j3 = match expect_lit(v, j2, ",\"name\":") {
        Some(j) => j,
        None => { return None; },
    };
    let (name, j4) = match parse_quoted(v, j3) {
        Some(p) => p,
        None => { return None; },
    };
    let j5 = match expect_lit(v, j4, "}") {
        Some(j) => j,
        None => { return None; },
    };
    Some((BoardInPost { id, name }, j5))
}

pub proof fn lemma_board_in_post_round(x: BoardInPostV, rest: Seq<char>)
    ensures
        dec_board_in_post_at(enc_board_in_post(x) + rest) == Some((x, rest)),
{
    let l1 = "{\"id\":"@;
    let l2 = ",\"name\":"@;
    let l3 = "}"@;
    let s = enc_board_in_post(x) + rest;
    let t2 = enc_str(x.name) + (l3 + rest);
    let t1 = dec_of(x.id as nat) + (l2 + t2);
    assert(s =~= l1 + t1);
    lemma_dec_lit(l1, t1);
    reveal_strlit(",\"name\":");
    assert((l2 + t2)[0] == ',');
    lemma_dec_u64_round(x.id, l2 + t2);
    lemma_dec_lit(l2, t2);
    lemma_dec_str_round(x.name, l3 + rest);
    lemma_dec_lit(l3, rest);
}

pub proof fn lemma_dec_board_in_post_consumes(s: Seq<char>)
    ensures
        dec_board_in_post_at(s) matches Some(p) ==> p.1.len() < s.len(),
{
    reveal_strlit("{\"id\":");
    if dec_board_in_post_at(s) is Some {
        let s1 = dec_lit(s, "{\"id\":"@)->0;
        lemma_dec_u64_consumes(s1);
        let s2 = (dec_u64_at(s1)->0).1;
        let s3 = dec_lit(s2, ",\"name\":"@)->0;
        lemma_dec_str_consumes(s3);
    }
}

// ---------------------------------------------------------------------
// Optional strings: null or "..."

pub open spec fn enc_opt_str(o: Option<Seq<char>>) -> Seq<char> {
    match o {
        None => "null"@,
        Some(x) => enc_str(x),
    }
}

pub open spec fn dec_opt_str_at(s: Seq<char>) -> Option<(Option<Seq<char>>, Seq<char>)> {
    match dec_lit(s, "null"@) {
        Some(s1) => Some((None, s1)),
        None => match dec_str_at(s) {
            Some((x, s1)) => Some((Some(x), s1)),
            None => None,
        },
    }
}

pub fn encode_opt_str(out: &mut String, o: &Option<String>)
    ensures
        final(out)@ == old(out)@ + enc_opt_str(crate::types::opt_str_view(*o)),
{
    match o {
        None => push_lit(out, "null"),
        Some(x) => push_quoted(out, x.as_str()),
    }
}

pub fn decode_opt_str(v: &Vec<char>, i: usize) -> (r: Option<(Option<String>, usize)>)
    requires
        i <= v@.len(),
    ensures
        match r {
            Some(p) => i <= p.1 <= v@.len() && dec_opt_str_at(v@.skip(i as int)) == Some(
                (crate::types::opt_str_view(p.0), v@.skip(p.1 as int)),
            ),
            None => dec_opt_str_at(v@.skip(i as int)) is None,
        },
{
    match expect_lit(v, i, "null") {
        Some(j) => { return Some((None, j)); },
        None => {},
    }
    match parse_quoted(v, i) {
        Some((x, j)) => Some((Some(x), j)),
        None => None,
    }
}

pub proof fn lemma_opt_str_round(o: Option<Seq<char>>, rest: Seq<char>)
    ensures
        dec_opt_str_at(enc_opt_str(o) + rest) == Some((o, rest)),
{
    reveal_strlit("null");
    match o {
        None => {
            lemma_dec_lit("null"@, rest);
        },
        Some(x) => {
            let s = enc_str(x) + rest;
            assert(s[0] == '"');
            if dec_lit(s, "null"@) is Some {
                assert(s.take(4)[0] == s[0]);
                assert(false);
            }
            lemma_dec_str_round(x, rest);
        },
    }
}

pub proof fn lemma_dec_opt_str_consumes(s: Seq<char>)
    ensures
        dec_opt_str_at(s) matches Some(p) ==> p.1.len() < s.len(),
{
    reveal_strlit("null");
    lemma_dec_str_consumes(s);
}

// ---------------------------------------------------------------------
// Characters: {"id":1,"name":"...","screenname":null|"..."}

pub open spec fn enc_character(x: CharacterV) -> Seq<char> {
    "{\"id\":"@ + dec_of(x.id as nat) + ",\"name\":"@ + enc_str(x.name) + ",\"screenname\":"@
        + enc_opt_str(x.screenname) + "}"@
}

pub open spec fn dec_character_at(s: Seq<char>) -> Option<(CharacterV, Seq<char>)> {
    match dec_lit(s, "{\"id\":"@) {
        Some(s1) => match dec_u64_at(s1) {
            Some((id, s2)) => match dec_lit(s2, ",\"name\":"@) {
                Some(s3) => match dec_str_at(s3) {
                    Some((name, s4)) => match dec_lit(s4, ",\"screenname\":"@) {
                        Some(s5) => match dec_opt_str_at(s5) {
                            Some((screenname, s6)) => match dec_lit(s6, "}"@) {
                                Some(s7) => Some((CharacterV { id, name, screenname }, s7)),
                                None => None,
                            },
                            None => None,
                        },
                        None => None,
                    },
                    None => None,
                },
                None => None,
            },
            None => None,
        },
        None => None,
    }
}

pub fn encode_character(out: &mut String, x: &Character)
    ensures
        final(out)@ == old(out)@ + enc_character(x@),
{
    push_lit(out, "{\"id\":");
    push_u64(out, x.id);
    push_lit(out, ",\"name\":");
    push_quoted(out, x.name.as_str());
    push_lit(out, ",\"screenname\":");
    encode_opt_str(out, &x.screenname);
    push_lit(out, "}");
    assert(final(out)@ =~= old(out)@ + enc_character(x@));
}

pub fn decode_character(v: &Vec<char>, i: usize) -> (r: Option<(Character, usize)>)
    requires
        i <= v@.len(),
    ensures
        match r {
            Some(p) => i <= p.1 <= v@.len() && dec_character_at(v@.skip(i as int)) == Some(
                (p.0@, v@.skip(p.1 as int)),
            ),
            None => dec_character_at(v@.skip(i as int)) is None,
        },
{
    let j1 = match expect_lit(v, i, "{\"id\":") {
        Some(j) => j,
        None => { return None; },
    };
    let (id, j2) = match parse_u64(v, j1) {
        Some(p) => p,
        None => { return None; },
    };
    let j3 = match expect_lit(v, j2, ",\"name\":") {
        Some(j) => j,
        None => { return None; },
    };
    let (name, j4) = match parse_quoted(v, j3) {
        Some(p) => p,
        None => { return None; },
    };
    let j5 = match expect_lit(v, j4, ",\"screenname\":") {
        Some(j) => j,
        None => { return None; },
    };
    let (screenname, j6) = match decode_opt_str(v, j5) {
        Some(p) => p,
        None => { return None; },
    };
    let j7 = match expect_lit(v, j6, "}") {
        Some(j) => j,
        None => { return None; },
    };
    Some((Character { id, name, screenname }, j7))
}

pub proof fn lemma_character_round(x: CharacterV, rest: Seq<char>)
    ensures
        dec_character_at(enc_character(x) + rest) == Some((x, rest)),
{
    let l1 = "{\"id\":"@;
    let l2 = ",\"name\":"@;
    let l3 = ",\"screenname\":"@;
    let l4 = "}"@;
    let s = enc_character(x) + rest;
    let t3 = enc_opt_str(x.screenname) + (l4 + rest);
    let t2 = enc_str(x.name) + (l3 + t3);
    let t1 = dec_of(x.id as nat) + (l2 + t2);
    assert(s =~= l1 + t1);
    lemma_dec_lit(l1, t1);
    reveal_strlit(",\"name\":");
    assert((l2 + t2)[0] == ',');
    lemma_dec_u64_round(x.id, l2 + t2);
    lemma_dec_lit(l2, t2);
    lemma_dec_str_round(x.name, l3 + t3);
    lemma_dec_lit(l3, t3);
    lemma_opt_str_round(x.screenname, l4 + rest);
    lemma_dec_lit(l4, rest);
}

pub proof fn lemma_dec_character_consumes(s: Seq<char>)
    ensures
        dec_character_at(s) matches Some(p) ==> p.1.len() < s.len(),
{
    reveal_strlit("{\"id\":");
    if dec_character_at(s) is Some {
        let s1 = dec_lit(s, "{\"id\":"@)->0;
        lemma_dec_u64_consumes(s1);
        let s2 = (dec_u64_at(s1)->0).1;
        let s3 = dec_lit(s2, ",\"name\":"@)->0;
        lemma_dec_str_consumes(s3);
        let s4 = (dec_str_at(s3)->0).1;
        let s5 = dec_lit(s4, ",\"screenname\":"@)->0;
        lemma_dec_opt_str_consumes(s5);
    }
}

// ---------------------------------------------------------------------
// Icons: {"id":1,"keyword":null|"...","url":null|"..."}

pub open spec fn enc_icon(x: IconV) -> Seq<char> {
    "{\"id\":"@ + dec_of(x.id as nat) + ",\"keyword\":"@ + enc_opt_str(x.keyword) + ",\"url\":"@
        + enc_opt_str(x.url) + "}"@
}

pub open spec fn dec_icon_at(s: Seq<char>) -> Option<(IconV, Seq<char>)> {
    match dec_lit(s, "{\"id\":"@) {
        Some(s1) => match dec_u64_at(s1) {
            Some((id, s2)) => match dec_lit(s2, ",\"keyword\":"@) {
                Some(s3) => match dec_opt_str_at(s3) {
                    Some((keyword, s4)) => match dec_lit(s4, ",\"url\":"@) {
                        Some(s5) => match dec_opt_str_at(s5) {
                            Some((url, s6)) => match dec_lit(s6, "}"@) {
                                Some(s7) => Some((IconV { id, keyword, url }, s7)),
                                None => None,
                            },
                            None => None,
                        },
                        None => None,
                    },
                    None => None,
                },
                None => None,
            },
            None => None,
        },
        None => None,
    }
}

pub fn encode_icon(out: &mut String, x: &Icon)
    ensures
        final(out)@ == old(out)@ + enc_icon(x@),
{
    push_lit(out, "{\"id\":");
    push_u64(out, x.id);
    push_lit(out, ",\"keyword\":");
    encode_opt_str(out, &x.keyword);
    push_lit(out, ",\"url\":");
    encode_opt_str(out, &x.url);
    push_lit(out, "}");
    assert(final(out)@ =~= old(out)@ + enc_icon(x@));
}

pub fn decode_icon(v: &Vec<char>, i: usize) -> (r: Option<(Icon, usize)>)
    requires
        i <= v@.len(),
    ensures
        match r {
            Some(p) => i <= p.1 <= v@.len() && dec_icon_at(v@.skip(i as int)) == Some(
                (p.0@, v@.skip(p.1 as int)),
            ),
            None => dec_icon_at(v@.skip(i as int)) is None,
        },
{
    let j1 = match expect_lit(v, i, "{\"id\":") {
        Some(j) => j,
        None => { return None; },
    };
    let (id, j2) = match parse_u64(v, j1) {
        Some(p) => p,
        None => { return None; },
    };
    let j3 = match expect_lit(v, j2, ",\"keyword\":") {
        Some(j) => j,
        None => { return None; },
    };
    let (keyword, j4) = match decode_opt_str(v, j3) {
        Some(p) => p,
        None => { return None; },
    };
    let j5 = match expect_lit(v, j4, ",\"url\":") {
        Some(j) => j,
        None => { return None; },
    };
    let (url, j6) = match decode_opt_str(v, j5) {
        Some(p) => p,
        None => { return None; },
    };
    let j7 = match expect_lit(v, j6, "}") {
        Some(j) => j,
        None => { return None; },
    };
    Some((Icon { id, keyword, url }, j7))
}

pub proof fn lemma_icon_round(x: IconV, rest: Seq<char>)
    ensures
        dec_icon_at(enc_icon(x) + rest) == Some((x, rest)),
{
    let l1 = "{\"id\":"@;
    let l2 = ",\"keyword\":"@;
    let l3 = ",\"url\":"@;
    let l4 = "}"@;
    let s = enc_icon(x) + rest;
    let t3 = enc_opt_str(x.url) + (l4 + rest);
    let t2 = enc_opt_str(x.keyword) + (l3 + t3);
    let t1 = dec_of(x.id as nat) + (l2 + t2);
    assert(s =~= l1 + t1);
    lemma_dec_lit(l1, t1);
    reveal_strlit(",\"keyword\":");
    assert((l2 + t2)[0] == ',');
    lemma_dec_u64_round(x.id, l2 + t2);
    lemma_dec_lit(l2, t2);
    lemma_opt_str_round(x.keyword, l3 + t3);
    lemma_dec_lit(l3, t3);
    lemma_opt_str_round(x.url, l4 + rest);
    lemma_dec_lit(l4, rest);
}

pub proof fn lemma_dec_icon_consumes(s: Seq<char>)
    ensures
        dec_icon_at(s) matches Some(p) ==> p.1.len() < s.len(),
{
    reveal_strlit("{\"id\":");
    if dec_icon_at(s) is Some {
        let s1 = dec_lit(s, "{\"id\":"@)->0;
        lemma_dec_u64_consumes(s1);
        let s2 = (dec_u64_at(s1)->0).1;
        let s3 = dec_lit(s2, ",\"keyword\":"@)->0;
        lemma_dec_opt_str_consumes(s3);
        let s4 = (dec_opt_str_at(s3)->0).1;
        let s5 = dec_lit(s4, ",\"url\":"@)->0;
        lemma_dec_opt_str_consumes(s5);
    }
}

// ---------------------------------------------------------------------
// Optional objects: null or {...}

pub open spec fn enc_opt_character(o: Option<CharacterV>) -> Seq<char> {
    match o {
        None => "null"@,
        Some(x) => enc_character(x),
    }
}

pub open spec fn dec_opt_character_at(s: Seq<char>) -> Option<(Option<CharacterV>, Seq<char>)> {
    match dec_lit(s, "null"@) {
        Some(s1) => Some((None, s1)),
        None => match dec_character_at(s) {
            Some((x, s1)) => Some((Some(x), s1)),
            None => None,
        },
    }
}

pub fn encode_opt_character(out: &mut String, o: &Option<Character>)
    ensures
        final(out)@ == old(out)@ + enc_opt_character(crate::types::opt_character_view(*o)),
{
    match o {
        None => push_lit(out, "null"),
        Some(x) => encode_character(out, x),
    }
}

pub fn decode_opt_character(v: &Vec<char>, i: usize) -> (r: Option<(Option<Character>, usize)>)
    requires
        i <= v@.len(),
    ensures
        match r {
            Some(p) => i <= p.1 <= v@.len() && dec_opt_character_at(v@.skip(i as int)) == Some(
                (crate::types::opt_character_view(p.0), v@.skip(p.1 as int)),
            ),
            None => dec_opt_character_at(v@.skip(i as int)) is None,
        },
{
    match expect_lit(v, i, "null") {
        Some(j) => { return Some((None, j)); },
        None => {},
    }
    match decode_character(v, i) {
        Some((x, j)) => Some((Some(x), j)),
        None => None,
    }
}

pub proof fn lemma_opt_character_round(o: Option<CharacterV>, rest: Seq<char>)
    ensures
        dec_opt_character_at(enc_opt_character(o) + rest) == Some((o, rest)),
{
    reveal_strlit("null");
    match o {
        None => {
            lemma_dec_lit("null"@, rest);
        },
        Some(x) => {
            reveal_strlit("{\"id\":");
            let s = enc_character(x) + rest;
            assert(s[0] == '{');
            if dec_lit(s, "null"@) is Some {
                assert(s.take(4)[0] == s[0]);
                assert(false);
            }
            lemma_character_round(x, rest);
        },
    }
}

pub proof fn lemma_dec_opt_character_consumes(s: Seq<char>)
    ensures
        dec_opt_character_at(s) matches Some(p) ==> p.1.len() < s.len(),
{
    reveal_strlit("null");
    lemma_dec_character_consumes(s);
}

pub open spec fn enc_opt_icon(o: Option<IconV>) -> Seq<char> {
    match o {
        None => "null"@,
        Some(x) => enc_icon(x),
    }
}

pub open spec fn dec_opt_icon_at(s: Seq<char>) -> Option<(Option<IconV>, Seq<char>)> {
    match dec_lit(s, "null"@) {
        Some(s1) => Some((None, s1)),
        None => match dec_icon_at(s) {
            Some((x, s1)) => Some((Some(x), s1)),
            None => None,
        },
    }
}

pub fn encode_opt_icon(out: &mut String, o: &Option<Icon>)
    ensures
        final(out)@ == old(out)@ + enc_opt_icon(crate::types::opt_icon_view(*o)),
{
    match o {
        None => push_lit(out, "null"),
        Some(x) => encode_icon(out, x),
    }
}

pub fn decode_opt_icon(v: &Vec<char>, i: usize) -> (r: Option<(Option<Icon>, usize)>)
    requires
        i <= v@.len(),
    ensures
        match r {
            Some(p) => i <= p.1 <= v@.len() && dec_opt_icon_at(v@.skip(i as int)) == Some(
                (crate::types::opt_icon_view(p.0), v@.skip(p.1 as int)),
            ),
            None => dec_opt_icon_at(v@.skip(i as int)) is None,
        },
{
    match expect_lit(v, i, "null") {
        Some(j) => { return Some((None, j)); },
        None => {},
    }
    match decode_icon(v, i) {
        Some((x, j)) => Some((Some(x), j)),
        None => None,
    }
}

pub proof fn lemma_opt_icon_round(o: Option<IconV>, rest: Seq<char>)
    ensures
        dec_opt_icon_at(enc_opt_icon(o) + rest) == Some((o, rest)),
{
    reveal_strlit("null");
    match o {
        None => {
            lemma_dec_lit("null"@, rest);
        },
        Some(x) => {
            reveal_strlit("{\"id\":");
            let s = enc_icon(x) + rest;
            assert(s[0] == '{');
            if dec_lit(s, "null"@) is Some {
                assert(s.take(4)[0] == s[0]);
                assert(false);
            }
            lemma_icon_round(x, rest);
        },
    }
}

pub proof fn lemma_dec_opt_icon_consumes(s: Seq<char>)
    ensures
        dec_opt_icon_at(s) matches Some(p) ==> p.1.len() < s.len(),
{
    reveal_strlit("null");
    lemma_dec_icon_consumes(s);
}

pub open spec fn enc_opt_section(o: Option<SectionV>) -> Seq<char> {
    match o {
        None => "null"@,
        Some(x) => enc_section(x),
    }
}

pub open spec fn dec_opt_section_at(s: Seq<char>) -> Option<(Option<SectionV>, Seq<char>)> {
    match dec_lit(s, "null"@) {
        Some(s1) => Some((None, s1)),
        None => match dec_section_at(s) {
            Some((x, s1)) => Some((Some(x), s1)),
            None => None,
        },
    }
}

pub fn encode_opt_section(out: &mut String, o: &Option<Section>)
    ensures
        final(out)@ == old(out)@ + enc_opt_section(crate::types::opt_section_view(*o)),
{
    match o {
        None => push_lit(out, "null"),
        Some(x) => encode_section(out, x),
    }
}

pub fn decode_opt_section(v: &Vec<char>, i: usize) -> (r: Option<(Option<Section>, usize)>)
    requires
        i <= v@.len(),
    ensures
        match r {
            Some(p) => i <= p.1 <= v@.len() && dec_opt_section_at(v@.skip(i as int)) == Some(
                (crate::types::opt_section_view(p.0), v@.skip(p.1 as int)),
            ),
            None => dec_opt_section_at(v@.skip(i as int)) is None,
        },
{
    match expect_lit(v, i, "null") {
        Some(j) => { return Some((None, j)); },
        None => {},
    }
    match decode_section(v, i) {
        Some((x, j)) => Some((Some(x), j)),
        None => None,
    }
}

pub proof fn lemma_opt_section_round(o: Option<SectionV>, rest: Seq<char>)
    ensures
        dec_opt_section_at(enc_opt_section(o) + rest) == Some((o, rest)),
{
    reveal_strlit("null");
    match o {
        None => {
            lemma_dec_lit("null"@, rest);
        },
        Some(x) => {
            reveal_strlit("{\"id\":");
            let s = enc_section(x) + rest;
            assert(s[0] == '{');
            if dec_lit(s, "null"@) is Some {
                assert(s.take(4)[0] == s[0]);
                assert(false);
            }
            lemma_section_round(x, rest);
        },
    }
}

pub proof fn lemma_dec_opt_section_consumes(s: Seq<char>)
    ensures
        dec_opt_section_at(s) matches Some(p) ==> p.1.len() < s.len(),
{
    reveal_strlit("null");
    lemma_dec_section_consumes(s);
}

// ---------------------------------------------------------------------
// Replies.

pub open spec fn enc_reply(x: ReplyV) -> Seq<char> {
    "{\"id\":"@ + dec_of(x.id as nat) + ",\"character\":"@ + enc_opt_character(x.character)
        + ",\"character_name\":"@ + enc_opt_str(x.character_name) + ",\"content\":"@ + enc_str(
        x.content,
    ) + ",\"created_at\":"@ + enc_i64(x.created_at) + ",\"icon\":"@ + enc_opt_icon(x.icon)
        + ",\"updated_at\":"@ + enc_i64(x.updated_at) + ",\"user\":"@ + enc_user(x.user) + "}"@
}

pub open spec fn dec_reply_at(s: Seq<char>) -> Option<(ReplyV, Seq<char>)> {
    match dec_lit(s, "{\"id\":"@) {
        Some(s1) => match dec_u64_at(s1) {
            Some((id, s2)) => match dec_lit(s2, ",\"character\":"@) {
                Some(s3) => match dec_opt_character_at(s3) {
                    Some((character, s4)) => match dec_lit(s4, ",\"character_name\":"@) {
                        Some(s5) => match dec_opt_str_at(s5) {
                            Some((character_name, s6)) => match dec_lit(s6, ",\"content\":"@) {
                                Some(s7) => match dec_str_at(s7) {
                                    Some((content, s8)) => match dec_lit(
                                        s8,
                                        ",\"created_at\":"@,
                                    ) {
                                        Some(s9) => match dec_i64_at(s9) {
                                            Some((created_at, s10)) => match dec_lit(
                                                s10,
                                                ",\"icon\":"@,
                                            ) {
                                                Some(s11) => match dec_opt_icon_at(s11) {
                                                    Some((icon, s12)) => match dec_lit(
                                                        s12,
                                                        ",\"updated_at\":"@,
                                                    ) {
                                                        Some(s13) => match dec_i64_at(s13) {
                                                            Some((updated_at, s14)) => match dec_lit(
                                                                s14,
                                                                ",\"user\":"@,
                                                            ) {
                                                                Some(s15) => match dec_user_at(
                                                                    s15,
                                                                ) {
                                                                    Some((user, s16)) => match dec_lit(
                                                                        s16,
                                                                        "}"@,
                                                                    ) {
                                                                        Some(s17) => Some(
                                                                            (
                                                                                ReplyV {
                                                                                    id,
                                                                                    character,
                                                                                    character_name,
                                                                                    content,
                                                                                    created_at,
                                                                                    icon,
                                                                                    updated_at,
                                                                                    user,
                                                                                },
                                                                                s17,
                                                                            ),
                                                                        ),
                                                                        None => None,
                                                                    },
                                                                    None => None,
                                                                },
                                                                None => None,
                                                            },
                                                            None => None,
                                                        },
                                                        None => None,
                                                    },
                                                    None => None,
                                                },
                                                None => None,
                                            },
                                            None => None,
                                        },
                                        None => None,
                                    },
                                    None => None,
                                },
                                None => None,
                            },
                            None => None,
                        },
                        None => None,
                    },
                    None => None,
                },
                None => None,
            },
            None => None,
        },
        None => None,
    }
}

#[verifier::rlimit(100)]
pub fn encode_reply(out: &mut String, x: &Reply)
    ensures
        final(out)@ == old(out)@ + enc_reply(x@),
{
    push_lit(out, "{\"id\":");
    push_u64(out, x.id);
    push_lit(out, ",\"character\":");
    encode_opt_character(out, &x.character);
    push_lit(out, ",\"character_name\":");
    encode_opt_str(out, &x.character_name);
    push_lit(out, ",\"content\":");
    push_quoted(out, x.content.as_str());
    push_lit(out, ",\"created_at\":");
    push_i64(out, x.created_at);
    push_lit(out, ",\"icon\":");
    encode_opt_icon(out, &x.icon);
    push_lit(out, ",\"updated_at\":");
    push_i64(out, x.updated_at);
    push_lit(out, ",\"user\":");
    encode_user(out, &x.user);
    push_lit(out, "}");
    assert(final(out)@ =~= old(out)@ + enc_reply(x@));
}

pub fn decode_reply(v: &Vec<char>, i: usize) -> (r: Option<(Reply, usize)>)
    requires
        i <= v@.len(),
    ensures
        match r {
            Some(p) => i <= p.1 <= v@.len() && dec_reply_at(v@.skip(i as int)) == Some(
                (p.0@, v@.skip(p.1 as int)),
            ),
            None => dec_reply_at(v@.skip(i as int)) is None,
        },
{
    let j1 = match expect_lit(v, i, "{\"id\":") {
        Some(j) => j,
        None => { return None; },
    };
    let (id, j2) = match parse_u64(v, j1) {
        Some(p) => p,
        None => { return None; },
    };
    let j3 = match expect_lit(v, j2, ",\"character\":") {
        Some(j) => j,
        None => { return None; },
    };
    let (character, j4) = match decode_opt_character(v, j3) {
        Some(p) => p,
        None => { return None; },
    };
    let j5 = match expect_lit(v, j4, ",\"character_name\":") {
        Some(j) => j,
        None => { return None; },
    };
    let (character_name, j6) = match decode_opt_str(v, j5) {
        Some(p) => p,
        None => { return None; },
    };
    let j7 = match expect_lit(v, j6, ",\"content\":") {
        Some(j) => j,
        None => { return None; },
    };
    let (content, j8) = match parse_quoted(v, j7) {
        Some(p) => p,
        None => { return None; },
    };
    let j9 = match expect_lit(v, j8, ",\"created_at\":") {
        Some(j) => j,
        None => { return None; },
    };
    let (created_at, j10) = match parse_i64(v, j9) {
        Some(p) => p,
        None => { return None; },
    };
    let j11 = match expect_lit(v, j10, ",\"icon\":") {
        Some(j) => j,
        None => { return None; },
    };
    let (icon, j12) = match decode_opt_icon(v, j11) {
        Some(p) => p,
        None => { return None; },
    };
    let j13 = match expect_lit(v, j12, ",\"updated_at\":") {
        Some(j) => j,
        None => { return None; },
    };
    let (updated_at, j14) = match parse_i64(v, j13) {
        Some(p) => p,
        None => { return None; },
    };
    let j15 = match expect_lit(v, j14, ",\"user\":") {
        Some(j) => j,
        None => { return None; },
    };
    let (user, j16) = match decode_user(v, j15) {
        Some(p) => p,
        None => { return None; },
    };
    let j17 = match expect_lit(v, j16, "}") {
        Some(j) => j,
        None => { return None; },
    };
    Some((Reply { id, character, character_name, content, created_at, icon, updated_at, user },
    j17))
}

#[verifier::rlimit(100)]
#[verifier::spinoff_prover]
pub proof fn lemma_reply_round(x: ReplyV, rest: Seq<char>)
    ensures
        dec_reply_at(enc_reply(x) + rest) == Some((x, rest)),
{
    let l1 = "{\"id\":"@;
    let l2 = ",\"character\":"@;
    let l3 = ",\"character_name\":"@;
    let l4 = ",\"content\":"@;
    let l5 = ",\"created_at\":"@;
    let l6 = ",\"icon\":"@;
    let l7 = ",\"updated_at\":"@;
    let l8 = ",\"user\":"@;
    let l9 = "}"@;
    let f1 = dec_of(x.id as nat);
    let f2 = enc_opt_character(x.character);
    let f3 = enc_opt_str(x.character_name);
    let f4 = enc_str(x.content);
    let f5 = enc_i64(x.created_at);
    let f6 = enc_opt_icon(x.icon);
    let f7 = enc_i64(x.updated_at);
    let f8 = enc_user(x.user);
    let s = enc_reply(x) + rest;
    let t8 = f8 + (l9 + rest);
    let t7 = f7 + (l8 + t8);
    let t6 = f6 + (l7 + t7);
    let t5 = f5 + (l6 + t6);
    let t4 = f4 + (l5 + t5);
    let t3 = f3 + (l4 + t4);
    let t2 = f2 + (l3 + t3);
    let t1 = f1 + (l2 + t2);
    let p1 = l1 + f1;
    let p2 = p1 + l2;
    let p3 = p2 + f2;
    let p4 = p3 + l3;
    let p5 = p4 + f3;
    let p6 = p5 + l4;
    let p7 = p6 + f4;
    let p8 = p7 + l5;
    let p9 = p8 + f5;
    let p10 = p9 + l6;
    let p11 = p10 + f6;
    let p12 = p11 + l7;
    let p13 = p12 + f7;
    let p14 = p13 + l8;
    let p15 = p14 + f8;
    assert(enc_reply(x) == p15 + l9);
    lemma_assoc(p15, l9, rest);
    lemma_assoc(p14, f8, l9 + rest);
    lemma_assoc(p13, l8, t8);
    lemma_assoc(p12, f7, l8 + t8);
    lemma_assoc(p11, l7, t7);
    lemma_assoc(p10, f6, l7 + t7);
    lemma_assoc(p9, l6, t6);
    lemma_assoc(p8, f5, l6 + t6);
    lemma_assoc(p7, l5, t5);
    lemma_assoc(p6, f4, l5 + t5);
    lemma_assoc(p5, l4, t4);
    lemma_assoc(p4, f3, l4 + t4);
    lemma_assoc(p3, l3, t3);
    lemma_assoc(p2, f2, l3 + t3);
    lemma_assoc(p1, l2, t2);
    lemma_assoc(l1, f1, l2 + t2);
    assert(s == l1 + t1);
    lemma_dec_lit(l1, t1);
    reveal_strlit(",\"character\":");
    assert((l2 + t2)[0] == ',');
    lemma_dec_u64_round(x.id, l2 + t2);
    lemma_dec_lit(l2, t2);
    lemma_opt_character_round(x.character, l3 + t3);
    lemma_dec_lit(l3, t3);
    lemma_opt_str_round(x.character_name, l4 + t4);
    lemma_dec_lit(l4, t4);
    lemma_dec_str_round(x.content, l5 + t5);
    lemma_dec_lit(l5, t5);
    reveal_strlit(",\"icon\":");
    assert((l6 + t6)[0] == ',');
    lemma_dec_i64_round(x.created_at, l6 + t6);
    lemma_dec_lit(l6, t6);
    lemma_opt_icon_round(x.icon, l7 + t7);
    lemma_dec_lit(l7, t7);
    reveal_strlit(",\"user\":");
    assert((l8 + t8)[0] == ',');
    lemma_dec_i64_round(x.updated_at, l8 + t8);
    lemma_dec_lit(l8, t8);
    lemma_user_round(x.user, l9 + rest);
    lemma_dec_lit(l9, rest);
}

#[verifier::rlimit(100)]
#[verifier::spinoff_prover]
pub proof fn lemma_dec_reply_consumes(s: Seq<char>)
    ensures
        dec_reply_at(s) matches Some(p) ==> p.1.len() < s.len(),
{
    reveal_strlit("{\"id\":");
    if dec_reply_at(s) is Some {
        let s1 = dec_lit(s, "{\"id\":"@)->0;
        lemma_dec_u64_consumes(s1);
        let s2 = (dec_u64_at(s1)->0).1;
        let s3 = dec_lit(s2, ",\"character\":"@)->0;
        lemma_dec_opt_character_consumes(s3);
        let s4 = (dec_opt_character_at(s3)->0).1;
        let s5 = dec_lit(s4, ",\"character_name\":"@)->0;
        lemma_dec_opt_str_consumes(s5);
        let s6 = (dec_opt_str_at(s5)->0).1;
        let s7 = dec_lit(s6, ",\"content\":"@)->0;
        lemma_dec_str_consumes(s7);
        let s8 = (dec_str_at(s7)->0).1;
        let s9 = dec_lit(s8, ",\"created_at\":"@)->0;
        lemma_dec_i64_consumes(s9);
        let s10 = (dec_i64_at(s9)->0).1;
        let s11 = dec_lit(s10, ",\"icon\":"@)->0;
        lemma_dec_opt_icon_consumes(s11);
        let s12 = (dec_opt_icon_at(s11)->0).1;
        let s13 = dec_lit(s12, ",\"updated_at\":"@)->0;
        lemma_dec_i64_consumes(s13);
        let s14 = (dec_i64_at(s13)->0).1;
        let s15 = dec_lit(s14, ",\"user\":"@)->0;
        lemma_dec_user_consumes(s15);
    }
}

// ---------------------------------------------------------------------
// Lists of replies.

pub open spec fn enc_replies_tail(xs: Seq<ReplyV>) -> Seq<char>
    decreases xs.len(),
{
    if xs.len() == 0 {
        seq![']']
    } else {
        seq![','] + enc_reply(xs[0]) + enc_replies_tail(xs.skip(1))
    }
}

pub open spec fn enc_replies(xs: Seq<ReplyV>) -> Seq<char> {
    if xs.len() == 0 {
        "[]"@
    } else {
        seq!['['] + enc_reply(xs[0]) + enc_replies_tail(xs.skip(1))
    }
}

pub open spec fn dec_replies_rest(s: Seq<char>) -> Option<(Seq<ReplyV>, Seq<char>)>
    decreases s.len(),
    via dec_replies_rest_dec
{
    if s.len() > 0 && s[0] == ']' {
        Some((Seq::empty(), s.skip(1)))
    } else if s.len() > 0 && s[0] == ',' {
        match dec_reply_at(s.skip(1)) {
            Some((x, s2)) => match dec_replies_rest(s2) {
                Some((xs, s3)) => Some((seq![x] + xs, s3)),
                None => None,
            },
            None => None,
        }
    } else {
        None
    }
}

#[via_fn]
proof fn dec_replies_rest_dec(s: Seq<char>) {
    if s.len() > 0 && s[0] == ',' {
        lemma_dec_reply_consumes(s.skip(1));
    }
}

pub open spec fn dec_replies_at(s: Seq<char>) -> Option<(Seq<ReplyV>, Seq<char>)> {
    match dec_lit(s, "["@) {
        Some(s1) => {
            if s1.len() > 0 && s1[0] == ']' {
                Some((Seq::empty(), s1.skip(1)))
            } else {
                match dec_reply_at(s1) {
                    Some((x, s2)) => match dec_replies_rest(s2) {
                        Some((xs, s3)) => Some((seq![x] + xs, s3)),
                        None => None,
                    },
                    None => None,
                }
            }
        },
        None => None,
    }
}

#[verifier::rlimit(100)]
#[verifier::spinoff_prover]
pub proof fn lemma_replies_tail_round(xs: Seq<ReplyV>, rest: Seq<char>)
    ensures
        dec_replies_rest(enc_replies_tail(xs) + rest) == Some((xs, rest)),
    decreases xs.len(),
{
    if xs.len() == 0 {
        let s = enc_replies_tail(xs) + rest;
        assert(s[0] == ']');
        assert(s.skip(1) =~= rest);
        assert(xs =~= Seq::<ReplyV>::empty());
    } else {
        let a = enc_reply(xs[0]);
        let b = enc_replies_tail(xs.skip(1));
        let s = enc_replies_tail(xs) + rest;
        assert(enc_replies_tail(xs) == (seq![','] + a) + b);
        lemma_head3(',', a, b, rest);
        assert(s[0] == ',');
        assert(s.skip(1) == a + (b + rest));
        lemma_reply_round(xs[0], b + rest);
        lemma_replies_tail_round(xs.skip(1), rest);
        assert(seq![xs[0]] + xs.skip(1) =~= xs);
    }
}

#[verifier::rlimit(100)]
#[verifier::spinoff_prover]
pub proof fn lemma_replies_round(xs: Seq<ReplyV>, rest: Seq<char>)
    ensures
        dec_replies_at(enc_replies(xs) + rest) == Some((xs, rest)),
{
    reveal_strlit("[");
    reveal_strlit("[]");
    reveal_strlit("{\"id\":");
    let s = enc_replies(xs) + rest;
    if xs.len() == 0 {
        assert(s =~= "["@ + (seq![']'] + rest));
        lemma_dec_lit("["@, seq![']'] + rest);
        assert((seq![']'] + rest)[0] == ']');
        assert((seq![']'] + rest).skip(1) =~= rest);
        assert(xs =~= Seq::<ReplyV>::empty());
    } else {
        let a = enc_reply(xs[0]);
        let b = enc_replies_tail(xs.skip(1));
        assert(enc_replies(xs) == (seq!['['] + a) + b);
        lemma_head3('[', a, b, rest);
        assert(s[0] == '[');
        assert("["@ =~= seq!['[']);
        lemma_dec_lit1(s, '[');
        assert(s.skip(1) == a + (b + rest));
        assert(a[0] == '{') by {
            assert(enc_reply(xs[0]) == ("{\"id\":"@ + dec_of(xs[0].id as nat)
                + ",\"character\":"@ + enc_opt_character(xs[0].character)
                + ",\"character_name\":"@ + enc_opt_str(xs[0].character_name) + ",\"content\":"@
                + enc_str(xs[0].content) + ",\"created_at\":"@ + enc_i64(xs[0].created_at)
                + ",\"icon\":"@ + enc_opt_icon(xs[0].icon) + ",\"updated_at\":"@ + enc_i64(
                xs[0].updated_at,
            ) + ",\"user\":"@ + enc_user(xs[0].user) + "}"@));
        }
        assert((a + (b + rest))[0] == '{');
        lemma_reply_round(xs[0], b + rest);
        lemma_replies_tail_round(xs.skip(1), rest);
        assert(seq![xs[0]] + xs.skip(1) =~= xs);
    }
}

pub open spec fn replies_view(xs: Seq<Reply>) -> Seq<ReplyV> {
    xs.map_values(|x: Reply| x@)
}

#[verifier::rlimit(100)]
pub fn encode_replies(out: &mut String, xs: &Vec<Reply>)
    ensures
        final(out)@ == old(out)@ + enc_replies(replies_view(xs@)),
{
    let ghost m = replies_view(xs@);
    let n = xs.len();
    if n == 0 {
        push_lit(out, "[]");
        assert(final(out)@ =~= old(out)@ + enc_replies(m));
        return ;
    }
    push_lit(out, "[");
    encode_reply(out, &xs[0]);
    proof {
        reveal_strlit("[");
        assert("["@ =~= seq!['[']);
        assert(old(out)@ + enc_replies(m) =~= out@ + enc_replies_tail(m.skip(1)));
    }
    let mut k: usize = 1;
    while k < n
        invariant
            1 <= k <= n,
            n == xs@.len(),
            m == replies_view(xs@),
            old(out)@ + enc_replies(m) == out@ + enc_replies_tail(m.skip(k as int)),
        decreases n - k,
    {
        let ghost out_prev = out@;
        push_lit(out, ",");
        encode_reply(out, &xs[k]);
        proof {
            reveal_strlit(",");
            assert(","@ =~= seq![',']);
            assert(m.skip(k as int)[0] == m[k as int]);
            assert(m.skip(k as int).skip(1) =~= m.skip(k + 1));
            assert(enc_replies_tail(m.skip(k as int)) == seq![','] + enc_reply(m[k as int])
                + enc_replies_tail(m.skip(k + 1)));
            assert(out@ =~= out_prev + seq![','] + enc_reply(m[k as int]));
            assert(out_prev + enc_replies_tail(m.skip(k as int)) =~= out@ + enc_replies_tail(
                m.skip(k + 1),
            ));
        }
        k = k + 1;
    }
    proof {
        reveal_strlit("]");
        assert("]"@ =~= seq![']']);
        assert(m.skip(n as int) =~= Seq::<ReplyV>::empty());
    }
    push_lit(out, "]");
    assert(final(out)@ =~= old(out)@ + enc_replies(m));
}

#[verifier::rlimit(100)]
pub fn decode_replies(v: &Vec<char>, i: usize) -> (r: Option<(Vec<Reply>, usize)>)
    requires
        i <= v@.len(),
    ensures
        match r {
            Some(p) => i <= p.1 <= v@.len() && dec_replies_at(v@.skip(i as int)) == Some(
                (replies_view(p.0@), v@.skip(p.1 as int)),
            ),
            None => dec_replies_at(v@.skip(i as int)) is None,
        },
{
    let j0 = match expect_lit(v, i, "[") {
        Some(j) => j,
        None => { return None; },
    };
    let ghost s1 = v@.skip(j0 as int);
    if j0 < v.len() && v[j0] == ']' {
        proof {
            assert(s1[0] == v@[j0 as int]);
            assert(s1.skip(1) =~= v@.skip(j0 + 1));
            assert(replies_view(Seq::<Reply>::empty()) =~= Seq::<ReplyV>::empty());
        }
        let empty: Vec<Reply> = Vec::new();
        return Some((empty, j0 + 1));
    }
    proof {
        if s1.len() > 0 {
            assert(s1[0] == v@[j0 as int]);
        }
    }
    let (x0, j1) = match decode_reply(v, j0) {
        Some(p) => p,
        None => { return None; },
    };
    let mut acc: Vec<Reply> = Vec::new();
    acc.push(x0);
    let mut j = j1;
    proof {
        assert(replies_view(acc@) =~= seq![x0@]);
    }
    loop
        invariant
            i <= j <= v@.len(),
            dec_replies_at(v@.skip(i as int)) == match dec_replies_rest(v@.skip(j as int)) {
                Some(p) => Some((replies_view(acc@) + p.0, p.1)),
                None => None::<(Seq<ReplyV>, Seq<char>)>,
            },
        decreases v@.len() - j,
    {
        let ghost cur = v@.skip(j as int);
        if j < v.len() && v[j] == ']' {
            proof {
                assert(cur[0] == v@[j as int]);
                assert(cur.skip(1) =~= v@.skip(j + 1));
                assert(replies_view(acc@) + Seq::<ReplyV>::empty() =~= replies_view(acc@));
            }
            return Some((acc, j + 1));
        }
        if !(j < v.len() && v[j] == ',') {
            proof {
                if cur.len() > 0 {
                    assert(cur[0] == v@[j as int]);
                }
                assert(dec_replies_rest(cur) is None);
            }
            return None;
        }
        proof {
            assert(cur[0] == v@[j as int]);
            assert(cur.skip(1) =~= v@.skip(j + 1));
        }
        let (x, j2) = match decode_reply(v, j + 1) {
            Some(p) => p,
            None => {
                proof {
                    assert(dec_replies_rest(cur) is None);
                }
                return None;
            },
        };
        let ghost acc_old = acc@;
        acc.push(x);
        proof {
            assert(replies_view(acc@) =~= replies_view(acc_old).push(x@));
            match dec_replies_rest(v@.skip(j2 as int)) {
                Some(p) => {
                    assert(dec_replies_rest(cur) == Some((seq![x@] + p.0, p.1)));
                    assert(replies_view(acc_old) + (seq![x@] + p.0) =~= replies_view(acc@)
                        + p.0);
                },
                None => {},
            }
        }
        j = j2;
    }
}

// ---------------------------------------------------------------------
// Posts.

pub open spec fn enc_post(x: PostV) -> Seq<char> {
    "{\"id\":"@ + dec_of(x.id as nat) + ",\"authors\":"@ + enc_users(x.authors) + ",\"board\":"@
        + enc_board_in_post(x.board) + ",\"character\":"@ + enc_opt_character(x.character)
        + ",\"content\":"@ + enc_str(x.content) + ",\"created_at\":"@ + enc_i64(x.created_at)
        + ",\"description\":"@ + enc_opt_str(x.description) + ",\"icon\":"@ + enc_opt_icon(x.icon)
        + ",\"num_replies\":"@ + dec_of(x.num_replies as nat) + ",\"section\":"@ + enc_opt_section(
        x.section,
    ) + ",\"section_order\":"@ + dec_of(x.section_order as nat) + ",\"status\":"@ + enc_str(
        x.status,
    ) + ",\"subject\":"@ + enc_str(x.subject) + ",\"tagged_at\":"@ + enc_i64(x.tagged_at) + "}"@
}

pub open spec fn dec_post_fields(s1: Seq<char>) -> Option<(PostV, Seq<char>)> {
    match dec_u64_at(s1) {
        Some((id, s2)) => match dec_lit(s2, ",\"authors\":"@) {
            Some(s3) => match dec_users_at(s3) {
                Some((authors, s4)) => match dec_lit(s4, ",\"board\":"@) {
                    Some(s5) => match dec_board_in_post_at(s5) {
                        Some((board, s6)) => match dec_lit(s6, ",\"character\":"@) {
                            Some(s7) => match dec_opt_character_at(s7) {
                                Some((character, s8)) => match dec_lit(s8, ",\"content\":"@) {
                                    Some(s9) => match dec_str_at(s9) {
                                        Some((content, s10)) => match dec_lit(
                                            s10,
                                            ",\"created_at\":"@,
                                        ) {
                                            Some(s11) => match dec_i64_at(s11) {
                                                Some((created_at, s12)) => dec_post_fields2(
                                                    PostV {
                                                        id,
                                                        authors,
                                                        board,
                                                        character,
                                                        content,
                                                        created_at,
                                                        description: None,
                                                        icon: None,
                                                        num_replies: 0,
                                                        section: None,
                                                        section_order: 0,
                                                        status: Seq::empty(),
                                                        subject: Seq::empty(),
                                                        tagged_at: 0,
                                                    },
                                                    s12,
                                                ),
                                                None => None,
                                            },
                                            None => None,
                                        },
                                        None => None,
                                    },
                                    None => None,
                                },
                                None => None,
                            },
                            None => None,
                        },
                        None => None,
                    },
                    None => None,
                },
                None => None,
            },
            None => None,
        },
        None => None,
    }
}

pub open spec fn dec_post_fields2(head: PostV, s12: Seq<char>) -> Option<(PostV, Seq<char>)> {
    match dec_lit(s12, ",\"description\":"@) {
        Some(s13) => match dec_opt_str_at(s13) {
            Some((description, s14)) => match dec_lit(s14, ",\"icon\":"@) {
                Some(s15) => match dec_opt_icon_at(s15) {
                    Some((icon, s16)) => match dec_lit(s16, ",\"num_replies\":"@) {
                        Some(s17) => match dec_u64_at(s17) {
                            Some((num_replies, s18)) => match dec_lit(s18, ",\"section\":"@) {
                                Some(s19) => match dec_opt_section_at(s19) {
                                    Some((section, s20)) => match dec_lit(
                                        s20,
                                        ",\"section_order\":"@,
                                    ) {
                                        Some(s21) => match dec_u64_at(s21) {
                                            Some((section_order, s22)) => match dec_lit(
                                                s22,
                                                ",\"status\":"@,
                                            ) {
                                                Some(s23) => match dec_str_at(s23) {
                                                    Some((status, s24)) => match dec_lit(
                                                        s24,
                                                        ",\"subject\":"@,
                                                    ) {
                                                        Some(s25) => match dec_str_at(s25) {
                                                            Some((subject, s26)) => match dec_lit(
                                                                s26,
                                                                ",\"tagged_at\":"@,
                                                            ) {
                                                                Some(s27) => match dec_i64_at(
                                                                    s27,
                                                                ) {
                                                                    Some((tagged_at, s28)) => match dec_lit(
                                                                        s28,
                                                                        "}"@,
                                                                    ) {
                                                                        Some(s29) => Some(
                                                                            (
                                                                                PostV {
                                                                                    description,
                                                                                    icon,
                                                                                    num_replies,
                                                                                    section,
                                                                                    section_order,
                                                                                    status,
                                                                                    subject,
                                                                                    tagged_at,
                                                                                    ..head
                                                                                },
                                                                                s29,
                                                                            ),
                                                                        ),
                                                                        None => None,
                                                                    },
                                                                    None => None,
                                                                },
                                                                None => None,
                                                            },
                                                            None => None,
                                                        },
                                                        None => None,
                                                    },
                                                    None => None,
                                                },
                                                None => None,
                                            },
                                            None => None,
                                        },
                                        None => None,
                                    },
                                    None => None,
                                },
                                None => None,
                            },
                            None => None,
                        },
                        None => None,
                    },
                    None => None,
                },
                None => None,
            },
            None => None,
        },
        None => None,
    }
}

pub open spec fn dec_post_at(s: Seq<char>) -> Option<(PostV, Seq<char>)> {
    match dec_lit(s, "{\"id\":"@) {
        Some(s1) => dec_post_fields(s1),
        None => None,
    }
}

#[verifier::rlimit(100)]
pub fn encode_post(out: &mut String, x: &Post)
    ensures
        final(out)@ == old(out)@ + enc_post(x@),
{
    push_lit(out, "{\"id\":");
    push_u64(out, x.id);
    push_lit(out, ",\"authors\":");
    encode_users(out, &x.authors);
    push_lit(out, ",\"board\":");
    encode_board_in_post(out, &x.board);
    push_lit(out, ",\"character\":");
    encode_opt_character(out, &x.character);
    push_lit(out, ",\"content\":");
    push_quoted(out, x.content.as_str());
    push_lit(out, ",\"created_at\":");
    push_i64(out, x.created_at);
    push_lit(out, ",\"description\":");
    encode_opt_str(out, &x.description);
    push_lit(out, ",\"icon\":");
    encode_opt_icon(out, &x.icon);
    push_lit(out, ",\"num_replies\":");
    push_u64(out, x.num_replies);
    push_lit(out, ",\"section\":");
    encode_opt_section(out, &x.section);
    push_lit(out, ",\"section_order\":");
    push_u64(out, x.section_order);
    push_lit(out, ",\"status\":");
    push_quoted(out, x.status.as_str());
    push_lit(out, ",\"subject\":");
    push_quoted(out, x.subject.as_str());
    push_lit(out, ",\"tagged_at\":");
    push_i64(out, x.tagged_at);
    push_lit(out, "}");
    proof {
        let base = old(out)@;
        let l1 = "{\"id\":"@;
        let l2 = ",\"authors\":"@;
        let l3 = ",\"board\":"@;
        let l4 = ",\"character\":"@;
        let l5 = ",\"content\":"@;
        let l6 = ",\"created_at\":"@;
        let l7 = ",\"description\":"@;
        let l8 = ",\"icon\":"@;
        let l9 = ",\"num_replies\":"@;
        let l10 = ",\"section\":"@;
        let l11 = ",\"section_order\":"@;
        let l12 = ",\"status\":"@;
        let l13 = ",\"subject\":"@;
        let l14 = ",\"tagged_at\":"@;
        let l15 = "}"@;
        let f1 = dec_of(x.id as nat);
        let f2 = enc_users(users_view(x.authors@));
        let f3 = enc_board_in_post(x.board@);
        let f4 = enc_opt_character(crate::types::opt_character_view(x.character));
        let f5 = enc_str(x.content@);
        let f6 = enc_i64(x.created_at);
        let f7 = enc_opt_str(crate::types::opt_str_view(x.description));
        let f8 = enc_opt_icon(crate::types::opt_icon_view(x.icon));
        let f9 = dec_of(x.num_replies as nat);
        let f10 = enc_opt_section(crate::types::opt_section_view(x.section));
        let f11 = dec_of(x.section_order as nat);
        let f12 = enc_str(x.status@);
        let f13 = enc_str(x.subject@);
        let f14 = enc_i64(x.tagged_at);
        let p1 = l1 + f1;
        let p2 = p1 + l2;
        let p3 = p2 + f2;
        let p4 = p3 + l3;
        let p5 = p4 + f3;
        let p6 = p5 + l4;
        let p7 = p6 + f4;
        let p8 = p7 + l5;
        let p9 = p8 + f5;
        let p10 = p9 + l6;
        let p11 = p10 + f6;
        let p12 = p11 + l7;
        let p13 = p12 + f7;
        let p14 = p13 + l8;
        let p15 = p14 + f8;
        let p16 = p15 + l9;
        let p17 = p16 + f9;
        let p18 = p17 + l10;
        let p19 = p18 + f10;
        let p20 = p19 + l11;
        let p21 = p20 + f11;
        let p22 = p21 + l12;
        let p23 = p22 + f12;
        let p24 = p23 + l13;
        let p25 = p24 + f13;
        let p26 = p25 + l14;
        let p27 = p26 + f14;
        lemma_assoc(base, l1, f1);
        lemma_assoc(base, p1, l2);
        lemma_assoc(base, p2, f2);
        lemma_assoc(base, p3, l3);
        lemma_assoc(base, p4, f3);
        lemma_assoc(base, p5, l4);
        lemma_assoc(base, p6, f4);
        lemma_assoc(base, p7, l5);
        lemma_assoc(base, p8, f5);
        lemma_assoc(base, p9, l6);
        lemma_assoc(base, p10, f6);
        lemma_assoc(base, p11, l7);
        lemma_assoc(base, p12, f7);
        lemma_assoc(base, p13, l8);
        lemma_assoc(base, p14, f8);
        lemma_assoc(base, p15, l9);
        lemma_assoc(base, p16, f9);
        lemma_assoc(base, p17, l10);
        lemma_assoc(base, p18, f10);
        lemma_assoc(base, p19, l11);
        lemma_assoc(base, p20, f11);
        lemma_assoc(base, p21, l12);
        lemma_assoc(base, p22, f12);
        lemma_assoc(base, p23, l13);
        lemma_assoc(base, p24, f13);
        lemma_assoc(base, p25, l14);
        lemma_assoc(base, p26, f14);
        lemma_assoc(base, p27, l15);
        assert(enc_post(x@) == p27 + l15);
        assert(out@ == base + enc_post(x@));
    }
}

#[verifier::rlimit(100)]
pub fn decode_post(v: &Vec<char>, i: usize) -> (r: Option<(Post, usize)>)
    requires
        i <= v@.len(),
    ensures
        match r {
            Some(p) => i <= p.1 <= v@.len() && dec_post_at(v@.skip(i as int)) == Some(
                (p.0@, v@.skip(p.1 as int)),
            ),
            None => dec_post_at(v@.skip(i as int)) is None,
        },
{
    let j1 = match expect_lit(v, i, "{\"id\":") {
        Some(j) => j,
        None => { return None; },
    };
    let (id, j2) = match parse_u64(v, j1) {
        Some(p) => p,
        None => { return None; },
    };
    let j3 = match expect_lit(v, j2, ",\"authors\":") {
        Some(j) => j,
        None => { return None; },
    };
    let (authors, j4) = match decode_users(v, j3) {
        Some(p) => p,
        None => { return None; },
    };
    let j5 = match expect_lit(v, j4, ",\"board\":") {
        Some(j) => j,
        None => { return None; },
    };
    let (board, j6) = match decode_board_in_post(v, j5) {
        Some(p) => p,
        None => { return None; },
    };
    let j7 = match expect_lit(v, j6, ",\"character\":") {
        Some(j) => j,
        None => { return None; },
    };
    let (character, j8) = match decode_opt_character(v, j7) {
        Some(p) => p,
        None => { return None; },
    };
    let j9 = match expect_lit(v, j8, ",\"content\":") {
        Some(j) => j,
        None => { return None; },
    };
    let (content, j10) = match parse_quoted(v, j9) {
        Some(p) => p,
        None => { return None; },
    };
    let j11 = match expect_lit(v, j10, ",\"created_at\":") {
        Some(j) => j,
        None => { return None; },
    };
    let (created_at, j12) = match parse_i64(v, j11) {
        Some(p) => p,
        None => { return None; },
    };
    let j13 = match expect_lit(v, j12, ",\"description\":") {
        Some(j) => j,
        None => { return None; },
    };
    let (description, j14) = match decode_opt_str(v, j13) {
        Some(p) => p,
        None => { return None; },
    };
    let j15 = match expect_lit(v, j14, ",\"icon\":") {
        Some(j) => j,
        None => { return None; },
    };
    let (icon, j16) = match decode_opt_icon(v, j15) {
        Some(p) => p,
        None => { return None; },
    };
    let j17 = match expect_lit(v, j16, ",\"num_replies\":") {
        Some(j) => j,
        None => { return None; },
    };
    let (num_replies, j18) = match parse_u64(v, j17) {
        Some(p) => p,
        None => { return None; },
    };
    let j19 = match expect_lit(v, j18, ",\"section\":") {
        Some(j) => j,
        None => { return None; },
    };
    let (section, j20) = match decode_opt_section(v, j19) {
        Some(p) => p,
        None => { return None; },
    };
    let j21 = match expect_lit(v, j20, ",\"section_order\":") {
        Some(j) => j,
        None => { return None; },
    };
    let (section_order, j22) = match parse_u64(v, j21) {
        Some(p) => p,
        None => { return None; },
    };
    let j23 = match expect_lit(v, j22, ",\"status\":") {
        Some(j) => j,
        None => { return None; },
    };
    let (status, j24) = match parse_quoted(v, j23) {
        Some(p) => p,
        None => { return None; },
    };
    let j25 = match expect_lit(v, j24, ",\"subject\":") {
        Some(j) => j,
        None => { return None; },
    };
    let (subject, j26) = match parse_quoted(v, j25) {
        Some(p) => p,
        None => { return None; },
    };
    let j27 = match expect_lit(v, j26, ",\"tagged_at\":") {
        Some(j) => j,
        None => { return None; },
    };
    let (tagged_at, j28) = match parse_i64(v, j27) {
        Some(p) => p,
        None => { return None; },
    };
    let j29 = match expect_lit(v, j28, "}") {
        Some(j) => j,
        None => { return None; },
    };
    Some(
        (
            Post {
                id,
                authors,
                board,
                character,
                content,
                created_at,
                description,
                icon,
                num_replies,
                section,
                section_order,
                status,
                subject,
                tagged_at,
            },
            j29,
        ),
    )
}

#[verifier::rlimit(100)]
#[verifier::spinoff_prover]
pub proof fn lemma_post_round(x: PostV, rest: Seq<char>)
    ensures
        dec_post_at(enc_post(x) + rest) == Some((x, rest)),
{
    let l1 = "{\"id\":"@;
    let l2 = ",\"authors\":"@;
    let l3 = ",\"board\":"@;
    let l4 = ",\"character\":"@;
    let l5 = ",\"content\":"@;
    let l6 = ",\"created_at\":"@;
    let l7 = ",\"description\":"@;
    let l8 = ",\"icon\":"@;
    let l9 = ",\"num_replies\":"@;
    let l10 = ",\"section\":"@;
    let l11 = ",\"section_order\":"@;
    let l12 = ",\"status\":"@;
    let l13 = ",\"subject\":"@;
    let l14 = ",\"tagged_at\":"@;
    let l15 = "}"@;
    let f1 = dec_of(x.id as nat);
    let f2 = enc_users(x.authors);
    let f3 = enc_board_in_post(x.board);
    let f4 = enc_opt_character(x.character);
    let f5 = enc_str(x.content);
    let f6 = enc_i64(x.created_at);
    let f7 = enc_opt_str(x.description);
    let f8 = enc_opt_icon(x.icon);
    let f9 = dec_of(x.num_replies as nat);
    let f10 = enc_opt_section(x.section);
    let f11 = dec_of(x.section_order as nat);
    let f12 = enc_str(x.status);
    let f13 = enc_str(x.subject);
    let f14 = enc_i64(x.tagged_at);
    let s = enc_post(x) + rest;
    let t14 = f14 + (l15 + rest);
    let t13 = f13 + (l14 + t14);
    let t12 = f12 + (l13 + t13);
    let t11 = f11 + (l12 + t12);
    let t10 = f10 + (l11 + t11);
    let t9 = f9 + (l10 + t10);
    let t8 = f8 + (l9 + t9);
    let t7 = f7 + (l8 + t8);
    let t6 = f6 + (l7 + t7);
    let t5 = f5 + (l6 + t6);
    let t4 = f4 + (l5 + t5);
    let t3 = f3 + (l4 + t4);
    let t2 = f2 + (l3 + t3);
    let t1 = f1 + (l2 + t2);
    let p1 = l1 + f1;
    let p2 = p1 + l2;
    let p3 = p2 + f2;
    let p4 = p3 + l3;
    let p5 = p4 + f3;
    let p6 = p5 + l4;
    let p7 = p6 + f4;
    let p8 = p7 + l5;
    let p9 = p8 + f5;
    let p10 = p9 + l6;
    let p11 = p10 + f6;
    let p12 = p11 + l7;
    let p13 = p12 + f7;
    let p14 = p13 + l8;
    let p15 = p14 + f8;
    let p16 = p15 + l9;
    let p17 = p16 + f9;
    let p18 = p17 + l10;
    let p19 = p18 + f10;
    let p20 = p19 + l11;
    let p21 = p20 + f11;
    let p22 = p21 + l12;
    let p23 = p22 + f12;
    let p24 = p23 + l13;
    let p25 = p24 + f13;
    let p26 = p25 + l14;
    let p27 = p26 + f14;
    assert(enc_post(x) == p27 + l15);
    lemma_assoc(p27, l15, rest);
    lemma_assoc(p26, f14, l15 + rest);
    lemma_assoc(p25, l14, t14);
    lemma_assoc(p24, f13, l14 + t14);
    lemma_assoc(p23, l13, t13);
    lemma_assoc(p22, f12, l13 + t13);
    lemma_assoc(p21, l12, t12);
    lemma_assoc(p20, f11, l12 + t12);
    lemma_assoc(p19, l11, t11);
    lemma_assoc(p18, f10, l11 + t11);
    lemma_assoc(p17, l10, t10);
    lemma_assoc(p16, f9, l10 + t10);
    lemma_assoc(p15, l9, t9);
    lemma_assoc(p14, f8, l9 + t9);
    lemma_assoc(p13, l8, t8);
    lemma_assoc(p12, f7, l8 + t8);
    lemma_assoc(p11, l7, t7);
    lemma_assoc(p10, f6, l7 + t7);
    lemma_assoc(p9, l6, t6);
    lemma_assoc(p8, f5, l6 + t6);
    lemma_assoc(p7, l5, t5);
    lemma_assoc(p6, f4, l5 + t5);
    lemma_assoc(p5, l4, t4);
    lemma_assoc(p4, f3, l4 + t4);
    lemma_assoc(p3, l3, t3);
    lemma_assoc(p2, f2, l3 + t3);
    lemma_assoc(p1, l2, t2);
    lemma_assoc(l1, f1, l2 + t2);
    assert(s == l1 + t1);
    lemma_dec_lit(l1, t1);
    reveal_strlit(",\"authors\":");
    assert((l2 + t2)[0] == ',');
    lemma_dec_u64_round(x.id, l2 + t2);
    lemma_dec_lit(l2, t2);
    lemma_users_round(x.authors, l3 + t3);
    lemma_dec_lit(l3, t3);
    lemma_board_in_post_round(x.board, l4 + t4);
    lemma_dec_lit(l4, t4);
    lemma_opt_character_round(x.character, l5 + t5);
    lemma_dec_lit(l5, t5);
    lemma_dec_str_round(x.content, l6 + t6);
    lemma_dec_lit(l6, t6);
    reveal_strlit(",\"description\":");
    assert((l7 + t7)[0] == ',');
    lemma_dec_i64_round(x.created_at, l7 + t7);
    lemma_dec_lit(l7, t7);
    lemma_opt_str_round(x.description, l8 + t8);
    lemma_dec_lit(l8, t8);
    lemma_opt_icon_round(x.icon, l9 + t9);
    lemma_dec_lit(l9, t9);
    reveal_strlit(",\"section\":");
    assert((l10 + t10)[0] == ',');
    lemma_dec_u64_round(x.num_replies, l10 + t10);
    lemma_dec_lit(l10, t10);
    lemma_opt_section_round(x.section, l11 + t11);
    lemma_dec_lit(l11, t11);
    reveal_strlit(",\"status\":");
    assert((l12 + t12)[0] == ',');
    lemma_dec_u64_round(x.section_order, l12 + t12);
    lemma_dec_lit(l12, t12);
    lemma_dec_str_round(x.status, l13 + t13);
    lemma_dec_lit(l13, t13);
    lemma_dec_str_round(x.subject, l14 + t14);
    lemma_dec_lit(l14, t14);
    reveal_strlit("}");
    assert((l15 + rest)[0] == '}');
    lemma_dec_i64_round(x.tagged_at, l15 + rest);
    lemma_dec_lit(l15, rest);
}

// ---------------------------------------------------------------------
// Post summaries from a board's post index.

pub open spec fn enc_post_in_board(x: PostInBoardV) -> Seq<char> {
    "{\"id\":"@ + dec_of(x.id as nat) + ",\"authors\":"@ + enc_users(x.authors) + ",\"board\":"@
        + enc_board_in_post(x.board) + ",\"created_at\":"@ + enc_i64(x.created_at)
        + ",\"description\":"@ + enc_opt_str(x.description) + ",\"num_replies\":"@ + dec_of(
        x.num_replies as nat,
    ) + ",\"section\":"@ + enc_opt_section(x.section) + ",\"section_order\":"@ + dec_of(
        x.section_order as nat,
    ) + ",\"status\":"@ + enc_str(x.status) + ",\"subject\":"@ + enc_str(x.subject)
        + ",\"tagged_at\":"@ + enc_i64(x.tagged_at) + "}"@
}

pub open spec fn dec_post_in_board_at(s: Seq<char>) -> Option<(PostInBoardV, Seq<char>)> {
    match dec_lit(s, "{\"id\":"@) {
        Some(s1) => match dec_u64_at(s1) {
            Some((id, s2)) => match dec_lit(s2, ",\"authors\":"@) {
                Some(s3) => match dec_users_at(s3) {
                    Some((authors, s4)) => match dec_lit(s4, ",\"board\":"@) {
                        Some(s5) => match dec_board_in_post_at(s5) {
                            Some((board, s6)) => match dec_lit(s6, ",\"created_at\":"@) {
                                Some(s7) => match dec_i64_at(s7) {
                                    Some((created_at, s8)) => match dec_lit(
                                        s8,
                                        ",\"description\":"@,
                                    ) {
                                        Some(s9) => match dec_opt_str_at(s9) {
                                            Some((description, s10)) => match dec_lit(
                                                s10,
                                                ",\"num_replies\":"@,
                                            ) {
                                                Some(s11) => match dec_u64_at(s11) {
                                                    Some((num_replies, s12)) => match dec_lit(
                                                        s12,
                                                        ",\"section\":"@,
                                                    ) {
                                                        Some(s13) => match dec_opt_section_at(
                                                            s13,
                                                        ) {
                                                            Some((section, s14)) => match dec_lit(
                                                                s14,
                                                                ",\"section_order\":"@,
                                                            ) {
                                                                Some(s15) => match dec_u64_at(
                                                                    s15,
                                                                ) {
                                                                    Some(
                                                                        (section_order, s16),
                                                                    ) => match dec_lit(
                                                                        s16,
                                                                        ",\"status\":"@,
                                                                    ) {
                                                                        Some(s17) => match dec_str_at(
                                                                            s17,
                                                                        ) {
                                                                            Some(
                                                                                (status, s18),
                                                                            ) => match dec_lit(
                                                                                s18,
                                                                                ",\"subject\":"@,
                                                                            ) {
                                                                                Some(
                                                                                    s19,
                                                                                ) => match dec_str_at(
                                                                                    s19,
                                                                                ) {
                                                                                    Some(
                                                                                        (
                                                                                            subject,
                                                                                            s20,
                                                                                        ),
                                                                                    ) => match dec_lit(
                                                                                        s20,
                                                                                        ",\"tagged_at\":"@,
                                                                                    ) {
                                                                                        Some(
                                                                                            s21,
                                                                                        ) => match dec_i64_at(
                                                                                            s21,
                                                                                        ) {
                                                                                            Some(
                                                                                                (
                                                                                                    tagged_at,
                                                                                                    s22,
                                                                                                ),
                                                                                            ) => match dec_lit(
                                                                                                s22,
                                                                                                "}"@,
                                                                                            ) {
                                                                                                Some(
                                                                                                    s23,
                                                                                                ) => Some(
                                                                                                    (
                                                                                                        PostInBoardV {
                                                                                                            id,
                                                                                                            authors,
                                                                                                            board,
                                                                                                            created_at,
                                                                                                            description,
                                                                                                            num_replies,
                                                                                                            section,
                                                                                                            section_order,
                                                                                                            status,
                                                                                                            subject,
                                                                                                            tagged_at,
                                                                                                        },
                                                                                                        s23,
                                                                                                    ),
                                                                                                ),
                                                                                                None => None,
                                                                                            },
                                                                                            None => None,
                                                                                        },
                                                                                        None => None,
                                                                                    },
                                                                                    None => None,
                                                                                },
                                                                                None => None,
                                                                            },
                                                                            None => None,
                                                                        },
                                                                        None => None,
                                                                    },
                                                                    None => None,
                                                                },
                                                                None => None,
                                                            },
                                                            None => None,
                                                        },
                                                        None => None,
                                                    },
                                                    None => None,
                                                },
                                                None => None,
                                            },
                                            None => None,
                                        },
                                        None => None,
                                    },
                                    None => None,
                                },
                                None => None,
                            },
                            None => None,
                        },
                        None => None,
                    },
                    None => None,
                },
                None => None,
            },
            None => None,
        },
        None => None,
    }
}

#[verifier::rlimit(100)]
pub fn encode_post_in_board(out: &mut String, x: &PostInBoard)
    ensures
        final(out)@ == old(out)@ + enc_post_in_board(x@),
{
    push_lit(out, "{\"id\":");
    push_u64(out, x.id);
    push_lit(out, ",\"authors\":");
    encode_users(out, &x.authors);
    push_lit(out, ",\"board\":");
    encode_board_in_post(out, &x.board);
    push_lit(out, ",\"created_at\":");
    push_i64(out, x.created_at);
    push_lit(out, ",\"description\":");
    encode_opt_str(out, &x.description);
    push_lit(out, ",\"num_replies\":");
    push_u64(out, x.num_replies);
    push_lit(out, ",\"section\":");
    encode_opt_section(out, &x.section);
    push_lit(out, ",\"section_order\":");
    push_u64(out, x.section_order);
    push_lit(out, ",\"status\":");
    push_quoted(out, x.status.as_str());
    push_lit(out, ",\"subject\":");
    push_quoted(out, x.subject.as_str());
    push_lit(out, ",\"tagged_at\":");
    push_i64(out, x.tagged_at);
    push_lit(out, "}");
    assert(final(out)@ =~= old(out)@ + enc_post_in_board(x@));
}

#[verifier::rlimit(100)]
pub fn decode_post_in_board(v: &Vec<char>, i: usize) -> (r: Option<(PostInBoard, usize)>)
    requires
        i <= v@.len(),
    ensures
        match r {
            Some(p) => i <= p.1 <= v@.len() && dec_post_in_board_at(v@.skip(i as int)) == Some(
                (p.0@, v@.skip(p.1 as int)),
            ),
            None => dec_post_in_board_at(v@.skip(i as int)) is None,
        },
{
    let j1 = match expect_lit(v, i, "{\"id\":") {
        Some(j) => j,
        None => { return None; },
    };
    let (id, j2) = match parse_u64(v, j1) {
        Some(p) => p,
        None => { return None; },
    };
    let j3 = match expect_lit(v, j2, ",\"authors\":") {
        Some(j) => j,
        None => { return None; },
    };
    let (authors, j4) = match decode_users(v, j3) {
        Some(p) => p,
        None => { return None; },
    };
    let j5 = match expect_lit(v, j4, ",\"board\":") {
        Some(j) => j,
        None => { return None; },
    };
    let (board, j6) = match decode_board_in_post(v, j5) {
        Some(p) => p,
        None => { return None; },
    };
    let j7 = match expect_lit(v, j6, ",\"created_at\":") {
        Some(j) => j,
        None => { return None; },
    };
    let (created_at, j8) = match parse_i64(v, j7) {
        Some(p) => p,
        None => { return None; },
    };
    let j9 = match expect_lit(v, j8, ",\"description\":") {
        Some(j) => j,
        None => { return None; },
    };
    let (description, j10) = match decode_opt_str(v, j9) {
        Some(p) => p,
        None => { return None; },
    };
    let j11 = match expect_lit(v, j10, ",\"num_replies\":") {
        Some(j) => j,
        None => { return None; },
    };
    let (num_replies, j12) = match parse_u64(v, j11) {
        Some(p) => p,
        None => { return None; },
    };
    let j13 = match expect_lit(v, j12, ",\"section\":") {
        Some(j) => j,
        None => { return None; },
    };
    let (section, j14) = match decode_opt_section(v, j13) {
        Some(p) => p,
        None => { return None; },
    };
    let j15 = match expect_lit(v, j14, ",\"section_order\":") {
        Some(j) => j,
        None => { return None; },
    };
    let (section_order, j16) = match parse_u64(v, j15) {
        Some(p) => p,
        None => { return None; },
    };
    let j17 = match expect_lit(v, j16, ",\"status\":") {
        Some(j) => j,
        None => { return None; },
    };
    let (status, j18) = match parse_quoted(v, j17) {
        Some(p) => p,
        None => { return None; },
    };
    let j19 = match expect_lit(v, j18, ",\"subject\":") {
        Some(j) => j,
        None => { return None; },
    };
    let (subject, j20) = match parse_quoted(v, j19) {
        Some(p) => p,
        None => { return None; },
    };
    let j21 = match expect_lit(v, j20, ",\"tagged_at\":") {
        Some(j) => j,
        None => { return None; },
    };
    let (tagged_at, j22) = match parse_i64(v, j21) {
        Some(p) => p,
        None => { return None; },
    };
    let j23 = match expect_lit(v, j22, "}") {
        Some(j) => j,
        None => { return None; },
    };
    Some(
        (
            PostInBoard {
                id,
                authors,
                board,
                created_at,
                description,
                num_replies,
                section,
                section_order,
                status,
                subject,
                tagged_at,
            },
            j23,
        ),
    )
}

#[verifier::rlimit(100)]
#[verifier::spinoff_prover]
pub proof fn lemma_post_in_board_round(x: PostInBoardV, rest: Seq<char>)
    ensures
        dec_post_in_board_at(enc_post_in_board(x) + rest) == Some((x, rest)),
{
    let l1 = "{\"id\":"@;
    let l2 = ",\"authors\":"@;
    let l3 = ",\"board\":"@;
    let l4 = ",\"created_at\":"@;
    let l5 = ",\"description\":"@;
    let l6 = ",\"num_replies\":"@;
    let l7 = ",\"section\":"@;
    let l8 = ",\"section_order\":"@;
    let l9 = ",\"status\":"@;
    let l10 = ",\"subject\":"@;
    let l11 = ",\"tagged_at\":"@;
    let l12 = "}"@;
    let f1 = dec_of(x.id as nat);
    let f2 = enc_users(x.authors);
    let f3 = enc_board_in_post(x.board);
    let f4 = enc_i64(x.created_at);
    let f5 = enc_opt_str(x.description);
    let f6 = dec_of(x.num_replies as nat);
    let f7 = enc_opt_section(x.section);
    let f8 = dec_of(x.section_order as nat);
    let f9 = enc_str(x.status);
    let f10 = enc_str(x.subject);
    let f11 = enc_i64(x.tagged_at);
    let s = enc_post_in_board(x) + rest;
    let t11 = f11 + (l12 + rest);
    let t10 = f10 + (l11 + t11);
    let t9 = f9 + (l10 + t10);
    let t8 = f8 + (l9 + t9);
    let t7 = f7 + (l8 + t8);
    let t6 = f6 + (l7 + t7);
    let t5 = f5 + (l6 + t6);
    let t4 = f4 + (l5 + t5);
    let t3 = f3 + (l4 + t4);
    let t2 = f2 + (l3 + t3);
    let t1 = f1 + (l2 + t2);
    let p1 = l1 + f1;
    let p2 = p1 + l2;
    let p3 = p2 + f2;
    let p4 = p3 + l3;
    let p5 = p4 + f3;
    let p6 = p5 + l4;
    let p7 = p6 + f4;
    let p8 = p7 + l5;
    let p9 = p8 + f5;
    let p10 = p9 + l6;
    let p11 = p10 + f6;
    let p12 = p11 + l7;
    let p13 = p12 + f7;
    let p14 = p13 + l8;
    let p15 = p14 + f8;
    let p16 = p15 + l9;
    let p17 = p16 + f9;
    let p18 = p17 + l10;
    let p19 = p18 + f10;
    let p20 = p19 + l11;
    let p21 = p20 + f11;
    assert(enc_post_in_board(x) == p21 + l12);
    lemma_assoc(p21, l12, rest);
    lemma_assoc(p20, f11, l12 + rest);
    lemma_assoc(p19, l11, t11);
    lemma_assoc(p18, f10, l11 + t11);
    lemma_assoc(p17, l10, t10);
    lemma_assoc(p16, f9, l10 + t10);
    lemma_assoc(p15, l9, t9);
    lemma_assoc(p14, f8, l9 + t9);
    lemma_assoc(p13, l8, t8);
    lemma_assoc(p12, f7, l8 + t8);
    lemma_assoc(p11, l7, t7);
    lemma_assoc(p10, f6, l7 + t7);
    lemma_assoc(p9, l6, t6);
    lemma_assoc(p8, f5, l6 + t6);
    lemma_assoc(p7, l5, t5);
    lemma_assoc(p6, f4, l5 + t5);
    lemma_assoc(p5, l4, t4);
    lemma_assoc(p4, f3, l4 + t4);
    lemma_assoc(p3, l3, t3);
    lemma_assoc(p2, f2, l3 + t3);
    lemma_assoc(p1, l2, t2);
    lemma_assoc(l1, f1, l2 + t2);
    assert(s == l1 + t1);
    lemma_dec_lit(l1, t1);
    reveal_strlit(",\"authors\":");
    assert((l2 + t2)[0] == ',');
    lemma_dec_u64_round(x.id, l2 + t2);
    lemma_dec_lit(l2, t2);
    lemma_users_round(x.authors, l3 + t3);
    lemma_dec_lit(l3, t3);
    lemma_board_in_post_round(x.board, l4 + t4);
    lemma_dec_lit(l4, t4);
    reveal_strlit(",\"description\":");
    assert((l5 + t5)[0] == ',');
    lemma_dec_i64_round(x.created_at, l5 + t5);
    lemma_dec_lit(l5, t5);
    lemma_opt_str_round(x.description, l6 + t6);
    lemma_dec_lit(l6, t6);
    reveal_strlit(",\"section\":");
    assert((l7 + t7)[0] == ',');
    lemma_dec_u64_round(x.num_replies, l7 + t7);
    lemma_dec_lit(l7, t7);
    lemma_opt_section_round(x.section, l8 + t8);
    lemma_dec_lit(l8, t8);
    reveal_strlit(",\"status\":");
    assert((l9 + t9)[0] == ',');
    lemma_dec_u64_round(x.section_order, l9 + t9);
    lemma_dec_lit(l9, t9);
    lemma_dec_str_round(x.status, l10 + t10);
    lemma_dec_lit(l10, t10);
    lemma_dec_str_round(x.subject, l11 + t11);
    lemma_dec_lit(l11, t11);
    reveal_strlit("}");
    assert((l12 + rest)[0] == '}');
    lemma_dec_i64_round(x.tagged_at, l12 + rest);
    lemma_dec_lit(l12, rest);
}

#[verifier::rlimit(100)]
#[verifier::spinoff_prover]
pub proof fn lemma_dec_post_in_board_consumes(s: Seq<char>)
    ensures
        dec_post_in_board_at(s) matches Some(p) ==> p.1.len() < s.len(),
{
    reveal_strlit("{\"id\":");
    if dec_post_in_board_at(s) is Some {
        let s1 = dec_lit(s, "{\"id\":"@)->0;
        lemma_dec_u64_consumes(s1);
        let s2 = (dec_u64_at(s1)->0).1;
        let s3 = dec_lit(s2, ",\"authors\":"@)->0;
        lemma_dec_users_consumes(s3);
        let s4 = (dec_users_at(s3)->0).1;
        let s5 = dec_lit(s4, ",\"board\":"@)->0;
        lemma_dec_board_in_post_consumes(s5);
        let s6 = (dec_board_in_post_at(s5)->0).1;
        let s7 = dec_lit(s6, ",\"created_at\":"@)->0;
        lemma_dec_i64_consumes(s7);
        let s8 = (dec_i64_at(s7)->0).1;
        let s9 = dec_lit(s8, ",\"description\":"@)->0;
        lemma_dec_opt_str_consumes(s9);
        let s10 = (dec_opt_str_at(s9)->0).1;
        let s11 = dec_lit(s10, ",\"num_replies\":"@)->0;
        lemma_dec_u64_consumes(s11);
        let s12 = (dec_u64_at(s11)->0).1;
        let s13 = dec_lit(s12, ",\"section\":"@)->0;
        lemma_dec_opt_section_consumes(s13);
        let s14 = (dec_opt_section_at(s13)->0).1;
        let s15 = dec_lit(s14, ",\"section_order\":"@)->0;
        lemma_dec_u64_consumes(s15);
        let s16 = (dec_u64_at(s15)->0).1;
        let s17 = dec_lit(s16, ",\"status\":"@)->0;
        lemma_dec_str_consumes(s17);
        let s18 = (dec_str_at(s17)->0).1;
        let s19 = dec_lit(s18, ",\"subject\":"@)->0;
        lemma_dec_str_consumes(s19);
        let s20 = (dec_str_at(s19)->0).1;
        let s21 = dec_lit(s20, ",\"tagged_at\":"@)->0;
        lemma_dec_i64_consumes(s21);
    }
}

// ---------------------------------------------------------------------
// Lists of post summaries.

pub open spec fn enc_post_in_boards_tail(xs: Seq<PostInBoardV>) -> Seq<char>
    decreases xs.len(),
{
    if xs.len() == 0 {
        seq![']']
    } else {
        seq![','] + enc_post_in_board(xs[0]) + enc_post_in_boards_tail(xs.skip(1))
    }
}

pub open spec fn enc_post_in_boards(xs: Seq<PostInBoardV>) -> Seq<char> {
    if xs.len() == 0 {
        "[]"@
    } else {
        seq!['['] + enc_post_in_board(xs[0]) + enc_post_in_boards_tail(xs.skip(1))
    }
}

pub open spec fn dec_post_in_boards_rest(s: Seq<char>) -> Option<(Seq<PostInBoardV>, Seq<char>)>
    decreases s.len(),
    via dec_post_in_boards_rest_dec
{
    if s.len() > 0 && s[0] == ']' {
        Some((Seq::empty(), s.skip(1)))
    } else if s.len() > 0 && s[0] == ',' {
        match dec_post_in_board_at(s.skip(1)) {
            Some((x, s2)) => match dec_post_in_boards_rest(s2) {
                Some((xs, s3)) => Some((seq![x] + xs, s3)),
                None => None,
            },
            None => None,
        }
    } else {
        None
    }
}

#[via_fn]
proof fn dec_post_in_boards_rest_dec(s: Seq<char>) {
    if s.len() > 0 && s[0] == ',' {
        lemma_dec_post_in_board_consumes(s.skip(1));
    }
}

pub open spec fn dec_post_in_boards_at(s: Seq<char>) -> Option<(Seq<PostInBoardV>, Seq<char>)> {
    match dec_lit(s, "["@) {
        Some(s1) => {
            if s1.len() > 0 && s1[0] == ']' {
                Some((Seq::empty(), s1.skip(1)))
            } else {
                match dec_post_in_board_at(s1) {
                    Some((x, s2)) => match dec_post_in_boards_rest(s2) {
                        Some((xs, s3)) => Some((seq![x] + xs, s3)),
                        None => None,
                    },
                    None => None,
                }
            }
        },
        None => None,
    }
}

#[verifier::rlimit(100)]
#[verifier::spinoff_prover]
pub proof fn lemma_post_in_boards_tail_round(xs: Seq<PostInBoardV>, rest: Seq<char>)
    ensures
        dec_post_in_boards_rest(enc_post_in_boards_tail(xs) + rest) == Some((xs, rest)),
    decreases xs.len(),
{
    if xs.len() == 0 {
        let s = enc_post_in_boards_tail(xs) + rest;
        assert(s[0] == ']');
        assert(s.skip(1) =~= rest);
        assert(xs =~= Seq::<PostInBoardV>::empty());
    } else {
        let a = enc_post_in_board(xs[0]);
        let b = enc_post_in_boards_tail(xs.skip(1));
        let s = enc_post_in_boards_tail(xs) + rest;
        assert(enc_post_in_boards_tail(xs) == (seq![','] + a) + b);
        lemma_head3(',', a, b, rest);
        assert(s[0] == ',');
        assert(s.skip(1) == a + (b + rest));
        lemma_post_in_board_round(xs[0], b + rest);
        lemma_post_in_boards_tail_round(xs.skip(1), rest);
        assert(seq![xs[0]] + xs.skip(1) =~= xs);
    }
}

#[verifier::rlimit(100)]
#[verifier::spinoff_prover]
pub proof fn lemma_post_in_boards_round(xs: Seq<PostInBoardV>, rest: Seq<char>)
    ensures
        dec_post_in_boards_at(enc_post_in_boards(xs) + rest) == Some((xs, rest)),
{
    reveal_strlit("[");
    reveal_strlit("[]");
    reveal_strlit("{\"id\":");
    let s = enc_post_in_boards(xs) + rest;
    if xs.len() == 0 {
        assert(s =~= "["@ + (seq![']'] + rest));
        lemma_dec_lit("["@, seq![']'] + rest);
        assert((seq![']'] + rest)[0] == ']');
        assert((seq![']'] + rest).skip(1) =~= rest);
        assert(xs =~= Seq::<PostInBoardV>::empty());
    } else {
        let a = enc_post_in_board(xs[0]);
        let b = enc_post_in_boards_tail(xs.skip(1));
        assert(enc_post_in_boards(xs) == (seq!['['] + a) + b);
        lemma_head3('[', a, b, rest);
        assert(s[0] == '[');
        assert("["@ =~= seq!['[']);
        lemma_dec_lit1(s, '[');
        assert(s.skip(1) == a + (b + rest));
        assert(a[0] == '{') by {
            assert(enc_post_in_board(xs[0]) == ("{\"id\":"@ + dec_of(xs[0].id as nat)
                + ",\"authors\":"@ + enc_users(xs[0].authors) + ",\"board\":"@
                + enc_board_in_post(xs[0].board) + ",\"created_at\":"@ + enc_i64(
                xs[0].created_at,
            ) + ",\"description\":"@ + enc_opt_str(xs[0].description) + ",\"num_replies\":"@
                + dec_of(xs[0].num_replies as nat) + ",\"section\":"@ + enc_opt_section(
                xs[0].section,
            ) + ",\"section_order\":"@ + dec_of(xs[0].section_order as nat) + ",\"status\":"@
                + enc_str(xs[0].status) + ",\"subject\":"@ + enc_str(xs[0].subject)
                + ",\"tagged_at\":"@ + enc_i64(xs[0].tagged_at) + "}"@));
        }
        assert((a + (b + rest))[0] == '{');
        lemma_post_in_board_round(xs[0], b + rest);
        lemma_post_in_boards_tail_round(xs.skip(1), rest);
        assert(seq![xs[0]] + xs.skip(1) =~= xs);
    }
}

pub open spec fn post_in_boards_view(xs: Seq<PostInBoard>) -> Seq<PostInBoardV> {
    xs.map_values(|x: PostInBoard| x@)
}

#[verifier::rlimit(100)]
pub fn encode_post_in_boards(out: &mut String, xs: &Vec<PostInBoard>)
    ensures
        final(out)@ == old(out)@ + enc_post_in_boards(post_in_boards_view(xs@)),
{
    let ghost m = post_in_boards_view(xs@);
    let n = xs.len();
    if n == 0 {
        push_lit(out, "[]");
        assert(final(out)@ =~= old(out)@ + enc_post_in_boards(m));
        return ;
    }
    push_lit(out, "[");
    encode_post_in_board(out, &xs[0]);
    proof {
        reveal_strlit("[");
        assert("["@ =~= seq!['[']);
        assert(old(out)@ + enc_post_in_boards(m) =~= out@ + enc_post_in_boards_tail(m.skip(1)));
    }
    let mut k: usize = 1;
    while k < n
        invariant
            1 <= k <= n,
            n == xs@.len(),
            m == post_in_boards_view(xs@),
            old(out)@ + enc_post_in_boards(m) == out@ + enc_post_in_boards_tail(m.skip(k as int)),
        decreases n - k,
    {
        let ghost out_prev = out@;
        push_lit(out, ",");
        encode_post_in_board(out, &xs[k]);
        proof {
            reveal_strlit(",");
            assert(","@ =~= seq![',']);
            assert(m.skip(k as int)[0] == m[k as int]);
            assert(m.skip(k as int).skip(1) =~= m.skip(k + 1));
            assert(enc_post_in_boards_tail(m.skip(k as int)) == seq![','] + enc_post_in_board(
                m[k as int],
            ) + enc_post_in_boards_tail(m.skip(k + 1)));
            assert(out@ =~= out_prev + seq![','] + enc_post_in_board(m[k as int]));
            assert(out_prev + enc_post_in_boards_tail(m.skip(k as int)) =~= out@
                + enc_post_in_boards_tail(m.skip(k + 1)));
        }
        k = k + 1;
    }
    proof {
        reveal_strlit("]");
        assert("]"@ =~= seq![']']);
        assert(m.skip(n as int) =~= Seq::<PostInBoardV>::empty());
    }
    push_lit(out, "]");
    assert(final(out)@ =~= old(out)@ + enc_post_in_boards(m));
}

#[verifier::rlimit(100)]
pub fn decode_post_in_boards(v: &Vec<char>, i: usize) -> (r: Option<(Vec<PostInBoard>, usize)>)
    requires
        i <= v@.len(),
    ensures
        match r {
            Some(p) => i <= p.1 <= v@.len() && dec_post_in_boards_at(v@.skip(i as int)) == Some(
                (post_in_boards_view(p.0@), v@.skip(p.1 as int)),
            ),
            None => dec_post_in_boards_at(v@.skip(i as int)) is None,
        },
{
    let j0 = match expect_lit(v, i, "[") {
        Some(j) => j,
        None => { return None; },
    };
    let ghost s1 = v@.skip(j0 as int);
    if j0 < v.len() && v[j0] == ']' {
        proof {
            assert(s1[0] == v@[j0 as int]);
            assert(s1.skip(1) =~= v@.skip(j0 + 1));
            assert(post_in_boards_view(Seq::<PostInBoard>::empty())
                =~= Seq::<PostInBoardV>::empty());
        }
        let empty: Vec<PostInBoard> = Vec::new();
        return Some((empty, j0 + 1));
    }
    proof {
        if s1.len() > 0 {
            assert(s1[0] == v@[j0 as int]);
        }
    }
    let (x0, j1) = match decode_post_in_board(v, j0) {
        Some(p) => p,
        None => { return None; },
    };
    let mut acc: Vec<PostInBoard> = Vec::new();
    acc.push(x0);
    let mut j = j1;
    proof {
        assert(post_in_boards_view(acc@) =~= seq![x0@]);
    }
    loop
        invariant
            i <= j <= v@.len(),
            dec_post_in_boards_at(v@.skip(i as int)) == match dec_post_in_boards_rest(
                v@.skip(j as int),
            ) {
                Some(p) => Some((post_in_boards_view(acc@) + p.0, p.1)),
                None => None::<(Seq<PostInBoardV>, Seq<char>)>,
            },
        decreases v@.len() - j,
    {
        let ghost cur = v@.skip(j as int);
        if j < v.len() && v[j] == ']' {
            proof {
                assert(cur[0] == v@[j as int]);
                assert(cur.skip(1) =~= v@.skip(j + 1));
                assert(post_in_boards_view(acc@) + Seq::<PostInBoardV>::empty()
                    =~= post_in_boards_view(acc@));
            }
            return Some((acc, j + 1));
        }
        if !(j < v.len() && v[j] == ',') {
            proof {
                if cur.len() > 0 {
                    assert(cur[0] == v@[j as int]);
                }
                assert(dec_post_in_boards_rest(cur) is None);
            }
            return None;
        }
        proof {
            assert(cur[0] == v@[j as int]);
            assert(cur.skip(1) =~= v@.skip(j + 1));
        }
        let (x, j2) = match decode_post_in_board(v, j + 1) {
            Some(p) => p,
            None => {
                proof {
                    assert(dec_post_in_boards_rest(cur) is None);
                }
                return None;
            },
        };
        let ghost acc_old = acc@;
        acc.push(x);
        proof {
            assert(post_in_boards_view(acc@) =~= post_in_boards_view(acc_old).push(x@));
            match dec_post_in_boards_rest(v@.skip(j2 as int)) {
                Some(p) => {
                    assert(dec_post_in_boards_rest(cur) == Some((seq![x@] + p.0, p.1)));
                    assert(post_in_boards_view(acc_old) + (seq![x@] + p.0)
                        =~= post_in_boards_view(acc@) + p.0);
                },
                None => {},
            }
        }
        j = j2;
    }
}

// ---------------------------------------------------------------------
// Boards: {"id":1,"name":"...","board_sections":[...]}

pub open spec fn enc_board(x: BoardV) -> Seq<char> {
    "{\"id\":"@ + dec_of(x.id as nat) + ",\"name\":"@ + enc_str(x.name) + ",\"board_sections\":"@
        + enc_sections(x.board_sections) + "}"@
}

pub open spec fn dec_board_at(s: Seq<char>) -> Option<(BoardV, Seq<char>)> {
    match dec_lit(s, "{\"id\":"@) {
        Some(s1) => match dec_u64_at(s1) {
            Some((id, s2)) => match dec_lit(s2, ",\"name\":"@) {
                Some(s3) => match dec_str_at(s3) {
                    Some((name, s4)) => match dec_lit(s4, ",\"board_sections\":"@) {
                        Some(s5) => match dec_sections_at(s5) {
                            Some((board_sections, s6)) => match dec_lit(s6, "}"@) {
                                Some(s7) => Some((BoardV { id, name, board_sections }, s7)),
                                None => None,
                            },
                            None => None,
                        },
                        None => None,
                    },
                    None => None,
                },
                None => None,
            },
            None => None,
        },
        None => None,
    }
}

pub fn encode_board(out: &mut String, x: &Board)
    ensures
        final(out)@ == old(out)@ + enc_board(x@),
{
    push_lit(out, "{\"id\":");
    push_u64(out, x.id);
    push_lit(out, ",\"name\":");
    push_quoted(out, x.name.as_str());
    push_lit(out, ",\"board_sections\":");
    encode_sections(out, &x.board_sections);
    push_lit(out, "}");
    assert(final(out)@ =~= old(out)@ + enc_board(x@));
}

pub fn decode_board(v: &Vec<char>, i: usize) -> (r: Option<(Board, usize)>)
    requires
        i <= v@.len(),
    ensures
        match r {
            Some(p) => i <= p.1 <= v@.len() && dec_board_at(v@.skip(i as int)) == Some(
                (p.0@, v@.skip(p.1 as int)),
            ),
            None => dec_board_at(v@.skip(i as int)) is None,
        },
{
    let j1 = match expect_lit(v, i, "{\"id\":") {
        Some(j) => j,
        None => { return None; },
    };
    let (id, j2) = match parse_u64(v, j1) {
        Some(p) => p,
        None => { return None; },
    };
    let j3 = match expect_lit(v, j2, ",\"name\":") {
        Some(j) => j,
        None => { return None; },
    };
    let (name, j4) = match parse_quoted(v, j3) {
        Some(p) => p,
        None => { return None; },
    };
    let j5 = match expect_lit(v, j4, ",\"board_sections\":") {
        Some(j) => j,
        None => { return None; },
    };
    let (board_sections, j6) = match decode_sections(v, j5) {
        Some(p) => p,
        None => { return None; },
    };
    let j7 = match expect_lit(v, j6, "}") {
        Some(j) => j,
        None => { return None; },
    };
    Some((Board { id, name, board_sections }, j7))
}

pub proof fn lemma_board_round(x: BoardV, rest: Seq<char>)
    ensures
        dec_board_at(enc_board(x) + rest) == Some((x, rest)),
{
    let l1 = "{\"id\":"@;
    let l2 = ",\"name\":"@;
    let l3 = ",\"board_sections\":"@;
    let l4 = "}"@;
    let s = enc_board(x) + rest;
    let t3 = enc_sections(x.board_sections) + (l4 + rest);
    let t2 = enc_str(x.name) + (l3 + t3);
    let t1 = dec_of(x.id as nat) + (l2 + t2);
    assert(s =~= l1 + t1);
    lemma_dec_lit(l1, t1);
    reveal_strlit(",\"name\":");
    assert((l2 + t2)[0] == ',');
    lemma_dec_u64_round(x.id, l2 + t2);
    lemma_dec_lit(l2, t2);
    lemma_dec_str_round(x.name, l3 + t3);
    lemma_dec_lit(l3, t3);
    lemma_sections_round(x.board_sections, l4 + rest);
    lemma_dec_lit(l4, rest);
}

// ---------------------------------------------------------------------
// Outcome envelopes.  Every cache file stores a full fetch outcome:
// either the success value or the list of error messages, wrapped so
// that the two are distinguishable from each other and from a missing
// entry.

pub open spec fn enc_board_outcome(o: Result<BoardV, Seq<GlowficErrorV>>) -> Seq<char> {
    match o {
        Ok(b) => "{\"Ok\":"@ + enc_board(b) + "}"@,
        Err(es) => "{\"Err\":"@ + enc_errors(es) + "}"@,
    }
}

pub open spec fn dec_board_outcome_at(s: Seq<char>) -> Option<
    (Result<BoardV, Seq<GlowficErrorV>>, Seq<char>),
> {
    match dec_lit(s, "{\"Ok\":"@) {
        Some(s1) => match dec_board_at(s1) {
            Some((b, s2)) => match dec_lit(s2, "}"@) {
                Some(s3) => Some((Ok(b), s3)),
                None => None,
            },
            None => None,
        },
        None => match dec_lit(s, "{\"Err\":"@) {
            Some(s1) => match dec_errors_at(s1) {
                Some((es, s2)) => match dec_lit(s2, "}"@) {
                    Some(s3) => Some((Err(es), s3)),
                    None => None,
                },
                None => None,
            },
            None => None,
        },
    }
}

pub open spec fn board_outcome_view(o: Result<Board, Vec<GlowficError>>) -> Result<
    BoardV,
    Seq<GlowficErrorV>,
> {
    match o {
        Ok(b) => Ok(b@),
        Err(es) => Err(errors_view(es@)),
    }
}

pub fn encode_board_outcome(out: &mut String, o: &Result<Board, Vec<GlowficError>>)
    ensures
        final(out)@ == old(out)@ + enc_board_outcome(board_outcome_view(*o)),
{
    match o {
        Ok(b) => {
            push_lit(out, "{\"Ok\":");
            encode_board(out, b);
            push_lit(out, "}");
            assert(final(out)@ =~= old(out)@ + enc_board_outcome(board_outcome_view(*o)));
        },
        Err(es) => {
            push_lit(out, "{\"Err\":");
            encode_errors(out, es);
            push_lit(out, "}");
            assert(final(out)@ =~= old(out)@ + enc_board_outcome(board_outcome_view(*o)));
        },
    }
}

pub fn decode_board_outcome(v: &Vec<char>, i: usize) -> (r: Option<
    (Result<Board, Vec<GlowficError>>, usize),
>)
    requires
        i <= v@.len(),
    ensures
        match r {
            Some(p) => i <= p.1 <= v@.len() && dec_board_outcome_at(v@.skip(i as int)) == Some(
                (board_outcome_view(p.0), v@.skip(p.1 as int)),
            ),
            None => dec_board_outcome_at(v@.skip(i as int)) is None,
        },
{
    match expect_lit(v, i, "{\"Ok\":") {
        Some(j1) => {
            let (b, j2) = match decode_board(v, j1) {
                Some(p) => p,
                None => { return None; },
            };
            let j3 = match expect_lit(v, j2, "}") {
                Some(j) => j,
                None => { return None; },
            };
            Some((Ok(b), j3))
        },
        None => {
            let j1 = match expect_lit(v, i, "{\"Err\":") {
                Some(j) => j,
                None => { return None; },
            };
            let (es, j2) = match decode_errors(v, j1) {
                Some(p) => p,
                None => { return None; },
            };
            let j3 = match expect_lit(v, j2, "}") {
                Some(j) => j,
                None => { return None; },
            };
            Some((Err(es), j3))
        },
    }
}

proof fn lemma_err_lit_not_ok(s: Seq<char>)
    requires
        s.len() >= 7,
        s[2] == 'E',
    ensures
        dec_lit(s, "{\"Ok\":"@) is None,
{
    reveal_strlit("{\"Ok\":");
    if dec_lit(s, "{\"Ok\":"@) is Some {
        assert(s.take(6)[2] == s[2]);
        assert(false);
    }
}

/// Serializing then deserializing an outcome yields the original value,
/// for the success variant and for the error variant alike.
pub proof fn lemma_board_outcome_round(o: Result<BoardV, Seq<GlowficErrorV>>, rest: Seq<char>)
    ensures
        dec_board_outcome_at(enc_board_outcome(o) + rest) == Some((o, rest)),
{
    let lok = "{\"Ok\":"@;
    let lerr = "{\"Err\":"@;
    let lend = "}"@;
    match o {
        Ok(b) => {
            let s = enc_board_outcome(o) + rest;
            let t1 = enc_board(b) + (lend + rest);
            assert(s =~= lok + t1);
            lemma_dec_lit(lok, t1);
            lemma_board_round(b, lend + rest);
            lemma_dec_lit(lend, rest);
        },
        Err(es) => {
            let s = enc_board_outcome(o) + rest;
            let t1 = enc_errors(es) + (lend + rest);
            assert(s =~= lerr + t1);
            reveal_strlit("{\"Err\":");
            assert(s[2] == 'E');
            lemma_err_lit_not_ok(s);
            lemma_dec_lit(lerr, t1);
            lemma_errors_round(es, lend + rest);
            lemma_dec_lit(lend, rest);
        },
    }
}

pub open spec fn enc_post_outcome(o: Result<PostV, Seq<GlowficErrorV>>) -> Seq<char> {
    match o {
        Ok(p) => "{\"Ok\":"@ + enc_post(p) + "}"@,
        Err(es) => "{\"Err\":"@ + enc_errors(es) + "}"@,
    }
}

pub open spec fn dec_post_outcome_at(s: Seq<char>) -> Option<
    (Result<PostV, Seq<GlowficErrorV>>, Seq<char>),
> {
    match dec_lit(s, "{\"Ok\":"@) {
        Some(s1) => match dec_post_at(s1) {
            Some((p, s2)) => match dec_lit(s2, "}"@) {
                Some(s3) => Some((Ok(p), s3)),
                None => None,
            },
            None => None,
        },
        None => match dec_lit(s, "{\"Err\":"@) {
            Some(s1) => match dec_errors_at(s1) {
                Some((es, s2)) => match dec_lit(s2, "}"@) {
                    Some(s3) => Some((Err(es), s3)),
                    None => None,
                },
                None => None,
            },
            None => None,
        },
    }
}

pub open spec fn post_outcome_view(o: Result<Post, Vec<GlowficError>>) -> Result<
    PostV,
    Seq<GlowficErrorV>,
> {
    match o {
        Ok(p) => Ok(p@),
        Err(es) => Err(errors_view(es@)),
    }
}

pub fn encode_post_outcome(out: &mut String, o: &Result<Post, Vec<GlowficError>>)
    ensures
        final(out)@ == old(out)@ + enc_post_outcome(post_outcome_view(*o)),
{
    match o {
        Ok(p) => {
            push_lit(out, "{\"Ok\":");
            encode_post(out, p);
            push_lit(out, "}");
            assert(final(out)@ =~= old(out)@ + enc_post_outcome(post_outcome_view(*o)));
        },
        Err(es) => {
            push_lit(out, "{\"Err\":");
            encode_errors(out, es);
            push_lit(out, "}");
            assert(final(out)@ =~= old(out)@ + enc_post_outcome(post_outcome_view(*o)));
        },
    }
}

pub fn decode_post_outcome(v: &Vec<char>, i: usize) -> (r: Option<
    (Result<Post, Vec<GlowficError>>, usize),
>)
    requires
        i <= v@.len(),
    ensures
        match r {
            Some(p) => i <= p.1 <= v@.len() && dec_post_outcome_at(v@.skip(i as int)) == Some(
                (post_outcome_view(p.0), v@.skip(p.1 as int)),
            ),
            None => dec_post_outcome_at(v@.skip(i as int)) is None,
        },
{
    match expect_lit(v, i, "{\"Ok\":") {
        Some(j1) => {
            let (p, j2) = match decode_post(v, j1) {
                Some(q) => q,
                None => { return None; },
            };
            let j3 = match expect_lit(v, j2, "}") {
                Some(j) => j,
                None => { return None; },
            };
            Some((Ok(p), j3))
        },
        None => {
            let j1 = match expect_lit(v, i, "{\"Err\":") {
                Some(j) => j,
                None => { return None; },
            };
            let (es, j2) = match decode_errors(v, j1) {
                Some(q) => q,
                None => { return None; },
            };
            let j3 = match expect_lit(v, j2, "}") {
                Some(j) => j,
                None => { return None; },
            };
            Some((Err(es), j3))
        },
    }
}

/// Serializing then deserializing an outcome yields the original value,
/// for the success variant and for the error variant alike.
#[verifier::rlimit(100)]
#[verifier::spinoff_prover]
pub proof fn lemma_post_outcome_round(o: Result<PostV, Seq<GlowficErrorV>>, rest: Seq<char>)
    ensures
        dec_post_outcome_at(enc_post_outcome(o) + rest) == Some((o, rest)),
{
    let lok = "{\"Ok\":"@;
    let lerr = "{\"Err\":"@;
    let lend = "}"@;
    match o {
        Ok(p) => {
            let s = enc_post_outcome(o) + rest;
            let t1 = enc_post(p) + (lend + rest);
            assert(s =~= lok + t1);
            lemma_dec_lit(lok, t1);
            lemma_post_round(p, lend + rest);
            lemma_dec_lit(lend, rest);
        },
        Err(es) => {
            let s = enc_post_outcome(o) + rest;
            let t1 = enc_errors(es) + (lend + rest);
            assert(s =~= lerr + t1);
            reveal_strlit("{\"Err\":");
            assert(s[2] == 'E');
            lemma_err_lit_not_ok(s);
            lemma_dec_lit(lerr, t1);
            lemma_errors_round(es, lend + rest);
            lemma_dec_lit(lend, rest);
        },
    }
}

pub open spec fn enc_replies_outcome(o: Result<Seq<ReplyV>, Seq<GlowficErrorV>>) -> Seq<char> {
    match o {
        Ok(rs) => "{\"Ok\":"@ + enc_replies(rs) + "}"@,
        Err(es) => "{\"Err\":"@ + enc_errors(es) + "}"@,
    }
}

pub open spec fn dec_replies_outcome_at(s: Seq<char>) -> Option<
    (Result<Seq<ReplyV>, Seq<GlowficErrorV>>, Seq<char>),
> {
    match dec_lit(s, "{\"Ok\":"@) {
        Some(s1) => match dec_replies_at(s1) {
            Some((rs, s2)) => match dec_lit(s2, "}"@) {
                Some(s3) => Some((Ok(rs), s3)),
                None => None,
            },
            None => None,
        },
        None => match dec_lit(s, "{\"Err\":"@) {
            Some(s1) => match dec_errors_at(s1) {
                Some((es, s2)) => match dec_lit(s2, "}"@) {
                    Some(s3) => Some((Err(es), s3)),
                    None => None,
                },
                None => None,
            },
            None => None,
        },
    }
}

pub open spec fn replies_outcome_view(o: Result<Vec<Reply>, Vec<GlowficError>>) -> Result<
    Seq<ReplyV>,
    Seq<GlowficErrorV>,
> {
    match o {
        Ok(rs) => Ok(replies_view(rs@)),
        Err(es) => Err(errors_view(es@)),
    }
}

pub fn encode_replies_outcome(out: &mut String, o: &Result<Vec<Reply>, Vec<GlowficError>>)
    ensures
        final(out)@ == old(out)@ + enc_replies_outcome(replies_outcome_view(*o)),
{
    match o {
        Ok(rs) => {
            push_lit(out, "{\"Ok\":");
            encode_replies(out, rs);
            push_lit(out, "}");
            assert(final(out)@ =~= old(out)@ + enc_replies_outcome(replies_outcome_view(*o)));
        },
        Err(es) => {
            push_lit(out, "{\"Err\":");
            encode_errors(out, es);
            push_lit(out, "}");
            assert(final(out)@ =~= old(out)@ + enc_replies_outcome(replies_outcome_view(*o)));
        },
    }
}

pub fn decode_replies_outcome(v: &Vec<char>, i: usize) -> (r: Option<
    (Result<Vec<Reply>, Vec<GlowficError>>, usize),
>)
    requires
        i <= v@.len(),
    ensures
        match r {
            Some(p) => i <= p.1 <= v@.len() && dec_replies_outcome_at(v@.skip(i as int)) == Some(
                (replies_outcome_view(p.0), v@.skip(p.1 as int)),
            ),
            None => dec_replies_outcome_at(v@.skip(i as int)) is None,
        },
{
    match expect_lit(v, i, "{\"Ok\":") {
        Some(j1) => {
            let (rs, j2) = match decode_replies(v, j1) {
                Some(q) => q,
                None => { return None; },
            };
            let j3 = match expect_lit(v, j2, "}") {
                Some(j) => j,
                None => { return None; },
            };
            Some((Ok(rs), j3))
        },
        None => {
            let j1 = match expect_lit(v, i, "{\"Err\":") {
                Some(j) => j,
                None => { return None; },
            };
            let (es, j2) = match decode_errors(v, j1) {
                Some(q) => q,
                None => { return None; },
            };
            let j3 = match expect_lit(v, j2, "}") {
                Some(j) => j,
                None => { return None; },
            };
            Some((Err(es), j3))
        },
    }
}

/// Serializing then deserializing an outcome yields the original value,
/// for the success variant and for the error variant alike.
#[verifier::rlimit(100)]
#[verifier::spinoff_prover]
pub proof fn lemma_replies_outcome_round(
    o: Result<Seq<ReplyV>, Seq<GlowficErrorV>>,
    rest: Seq<char>,
)
    ensures
        dec_replies_outcome_at(enc_replies_outcome(o) + rest) == Some((o, rest)),
{
    let lok = "{\"Ok\":"@;
    let lerr = "{\"Err\":"@;
    let lend = "}"@;
    match o {
        Ok(rs) => {
            let s = enc_replies_outcome(o) + rest;
            let t1 = enc_replies(rs) + (lend + rest);
            assert(s =~= lok + t1);
            lemma_dec_lit(lok, t1);
            lemma_replies_round(rs, lend + rest);
            lemma_dec_lit(lend, rest);
        },
        Err(es) => {
            let s = enc_replies_outcome(o) + rest;
            let t1 = enc_errors(es) + (lend + rest);
            assert(s =~= lerr + t1);
            reveal_strlit("{\"Err\":");
            assert(s[2] == 'E');
            lemma_err_lit_not_ok(s);
            lemma_dec_lit(lerr, t1);
            lemma_errors_round(es, lend + rest);
            lemma_dec_lit(lend, rest);
        },
    }
}

pub open spec fn enc_board_posts_outcome(
    o: Result<Seq<PostInBoardV>, Seq<GlowficErrorV>>,
) -> Seq<char> {
    match o {
        Ok(ps) => "{\"Ok\":"@ + enc_post_in_boards(ps) + "}"@,
        Err(es) => "{\"Err\":"@ + enc_errors(es) + "}"@,
    }
}

pub open spec fn dec_board_posts_outcome_at(s: Seq<char>) -> Option<
    (Result<Seq<PostInBoardV>, Seq<GlowficErrorV>>, Seq<char>),
> {
    match dec_lit(s, "{\"Ok\":"@) {
        Some(s1) => match dec_post_in_boards_at(s1) {
            Some((ps, s2)) => match dec_lit(s2, "}"@) {
                Some(s3) => Some((Ok(ps), s3)),
                None => None,
            },
            None => None,
        },
        None => match dec_lit(s, "{\"Err\":"@) {
            Some(s1) => match dec_errors_at(s1) {
                Some((es, s2)) => match dec_lit(s2, "}"@) {
                    Some(s3) => Some((Err(es), s3)),
                    None => None,
                },
                None => None,
            },
            None => None,
        },
    }
}

pub open spec fn board_posts_outcome_view(o: Result<Vec<PostInBoard>, Vec<GlowficError>>) -> Result<
    Seq<PostInBoardV>,
    Seq<GlowficErrorV>,
> {
    match o {
        Ok(ps) => Ok(post_in_boards_view(ps@)),
        Err(es) => Err(errors_view(es@)),
    }
}

#[verifier::rlimit(100)]
pub fn encode_board_posts_outcome(out: &mut String, o: &Result<Vec<PostInBoard>, Vec<GlowficError>>)
    ensures
        final(out)@ == old(out)@ + enc_board_posts_outcome(board_posts_outcome_view(*o)),
{
    match o {
        Ok(ps) => {
            push_lit(out, "{\"Ok\":");
            encode_post_in_boards(out, ps);
            push_lit(out, "}");
            assert(final(out)@ =~= old(out)@ + enc_board_posts_outcome(
                board_posts_outcome_view(*o),
            ));
        },
        Err(es) => {
            push_lit(out, "{\"Err\":");
            encode_errors(out, es);
            push_lit(out, "}");
            assert(final(out)@ =~= old(out)@ + enc_board_posts_outcome(
                board_posts_outcome_view(*o),
            ));
        },
    }
}

pub fn decode_board_posts_outcome(v: &Vec<char>, i: usize) -> (r: Option<
    (Result<Vec<PostInBoard>, Vec<GlowficError>>, usize),
>)
    requires
        i <= v@.len(),
    ensures
        match r {
            Some(p) => i <= p.1 <= v@.len() && dec_board_posts_outcome_at(v@.skip(i as int))
                == Some((board_posts_outcome_view(p.0), v@.skip(p.1 as int))),
            None => dec_board_posts_outcome_at(v@.skip(i as int)) is None,
        },
{
    match expect_lit(v, i, "{\"Ok\":") {
        Some(j1) => {
            let (ps, j2) = match decode_post_in_boards(v, j1) {
                Some(q) => q,
                None => { return None; },
            };
            let j3 = match expect_lit(v, j2, "}") {
                Some(j) => j,
                None => { return None; },
            };
            Some((Ok(ps), j3))
        },
        None => {
            let j1 = match expect_lit(v, i, "{\"Err\":") {
                Some(j) => j,
                None => { return None; },
            };
            let (es, j2) = match decode_errors(v, j1) {
                Some(q) => q,
                None => { return None; },
            };
            let j3 = match expect_lit(v, j2, "}") {
                Some(j) => j,
                None => { return None; },
            };
            Some((Err(es), j3))
        },
    }
}

/// Serializing then deserializing an outcome yields the original value,
/// for the success variant and for the error variant alike.
#[verifier::rlimit(100)]
#[verifier::spinoff_prover]
pub proof fn lemma_board_posts_outcome_round(
    o: Result<Seq<PostInBoardV>, Seq<GlowficErrorV>>,
    rest: Seq<char>,
)
    ensures
        dec_board_posts_outcome_at(enc_board_posts_outcome(o) + rest) == Some((o, rest)),
{
    let lok = "{\"Ok\":"@;
    let lerr = "{\"Err\":"@;
    let lend = "}"@;
    match o {
        Ok(ps) => {
            let a = enc_post_in_boards(ps);
            let s = enc_board_posts_outcome(o) + rest;
            let t1 = a + (lend + rest);
            assert(enc_board_posts_outcome(o) == (lok + a) + lend);
            lemma_assoc(lok + a, lend, rest);
            lemma_assoc(lok, a, lend + rest);
            assert(s == lok + t1);
            lemma_dec_lit(lok, t1);
            lemma_post_in_boards_round(ps, lend + rest);
            lemma_dec_lit(lend, rest);
        },
        Err(es) => {
            let s = enc_board_posts_outcome(o) + rest;
            let t1 = enc_errors(es) + (lend + rest);
            assert(s =~= lerr + t1);
            reveal_strlit("{\"Err\":");
            assert(s[2] == 'E');
            lemma_err_lit_not_ok(s);
            lemma_dec_lit(lerr, t1);
            lemma_errors_round(es, lend + rest);
            lemma_dec_lit(lend, rest);
        },
    }
}

} // verus!
