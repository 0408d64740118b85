//! Markup transforms.  HTML repair and sanitization, tag flattening
//! and HTML-to-XML re-serialization are outside work, consumed as
//! black boxes whose results are named; escaping and the unwrapping of
//! the serializer's fixed envelope are this crate's own, verified
//! logic.

use vstd::prelude::*;

use std::borrow::Cow;

use html5ever::tendril::TendrilSink;

use crate::intern_images::{has_entry, interner_wf, spec_name, Interner, InternerV};
use crate::textfmt::{push_char, str_chars_vec};
use crate::types::Thread;

verus! {

// ---------------------------------------------------------------------
// HTML escaping: the five reserved characters.

pub open spec fn esc_html_char(c: char) -> Seq<char> {
    if c == '&' {
        "&amp;"@
    } else if c == '<' {
        "&lt;"@
    } else if c == '>' {
        "&gt;"@
    } else if c == '"' {
        "&quot;"@
    } else if c == '\'' {
        "&#x27;"@
    } else {
        seq![c]
    }
}

pub open spec fn spec_escape_html(s: Seq<char>) -> Seq<char>
    decreases s.len(),
{
    if s.len() == 0 {
        Seq::empty()
    } else {
        esc_html_char(s[0]) + spec_escape_html(s.skip(1))
    }
}

pub proof fn lemma_escape_html_snoc(s: Seq<char>, i: int)
    requires
        0 <= i < s.len(),
    ensures
        spec_escape_html(s.take(i + 1)) == spec_escape_html(s.take(i)) + esc_html_char(s[i]),
    decreases i,
{
    if i == 0 {
        assert(s.take(1)[0] == s[0]);
        assert(s.take(1).skip(1) =~= Seq::<char>::empty());
        assert(s.take(0) =~= Seq::<char>::empty());
        assert(spec_escape_html(s.take(1)) =~= spec_escape_html(s.take(0)) + esc_html_char(
            s[0],
        ));
    } else {
        lemma_escape_html_snoc(s.skip(1), i - 1);
        assert(s.take(i + 1)[0] == s[0]);
        assert(s.take(i + 1).skip(1) =~= s.skip(1).take(i));
        assert(s.take(i)[0] == s[0]);
        assert(s.take(i).skip(1) =~= s.skip(1).take(i - 1));
        assert(s.skip(1)[i - 1] == s[i]);
        assert(spec_escape_html(s.take(i + 1)) =~= spec_escape_html(s.take(i)) + esc_html_char(
            s[i],
        ));
    }
}

/// Escapes the HTML-reserved characters: `&`, `<`, `>`, `"` and `'`.
pub fn escape_html(v: &str) -> (r: String)
    ensures
        r@ == spec_escape_html(v@),
{
    let cs = str_chars_vec(v);
    let n = cs.len();
    let mut out = String::new();
    let mut i: usize = 0;
    while i < n
        invariant
            i <= n,
            n == cs@.len(),
            cs@ == v@,
            out@ == spec_escape_html(v@.take(i as int)),
        decreases n - i,
    {
        let c = cs[i];
        proof {
            lemma_escape_html_snoc(v@, i as int);
        }
        if c == '&' {
            let ghost before = out@;
            out.append("&amp;");
            assert(out@ =~= before + esc_html_char(c));
        } else if c == '<' {
            let ghost before = out@;
            out.append("&lt;");
            assert(out@ =~= before + esc_html_char(c));
        } else if c == '>' {
            let ghost before = out@;
            out.append("&gt;");
            assert(out@ =~= before + esc_html_char(c));
        } else if c == '"' {
            let ghost before = out@;
            out.append("&quot;");
            assert(out@ =~= before + esc_html_char(c));
        } else if c == '\'' {
            let ghost before = out@;
            out.append("&#x27;");
            assert(out@ =~= before + esc_html_char(c));
        } else {
            let ghost before = out@;
            push_char(&mut out, c);
            assert(out@ =~= before + esc_html_char(c));
        }
        i = i + 1;
    }
    proof {
        assert(v@.take(n as int) =~= v@);
    }
    out
}

// ---------------------------------------------------------------------
// Sanitization: a black-box "repair and sanitize" pass.

/// What the sanitizer returns for a markup string: repaired, with
/// disallowed markup removed.  The result depends on the markup alone.
pub uninterp spec fn sanitize_of(html: Seq<char>) -> Seq<char>;

/// Relies on ammonia::clean: repairs the fragment and strips markup
/// outside the sanitizer's allow list.
#[verifier::external_body]
pub fn repair_and_sanitize(content: &str) -> (r: String)
    ensures
        r@ == sanitize_of(content@),
{
    ammonia::clean(content)
}

// ---------------------------------------------------------------------
// Details flattening, for e-readers that render <details> poorly.

/// What the flattening rewrite returns: every details tag replaced by
/// a blockquote and every summary by a marked paragraph.  The result
/// depends on the markup alone.
pub uninterp spec fn flatten_of(html: Seq<char>) -> Seq<char>;

/// Relies on lol_html::rewrite_str with handlers that rename details
/// to blockquote and summary to a paragraph with an "open" marker.
#[verifier::external_body]
pub fn flatten_details(content: &str) -> (r: String)
    ensures
        r@ == flatten_of(content@),
{
    let dh = lol_html::ElementContentHandlers::default().element(
        |el: &mut lol_html::html_content::Element| { el.set_tag_name("blockquote").ok(); Ok(()) },
    );
    let sh = lol_html::ElementContentHandlers::default().element(
        |el: &mut lol_html::html_content::Element| {
            el.set_tag_name("p").ok();
            el.prepend("\u{25bc} ", lol_html::html_content::ContentType::Text);
            Ok(())
        },
    );
    let settings = lol_html::RewriteStrSettings::new()
        .append_element_content_handler((Cow::Owned("details".parse::<lol_html::Selector>().unwrap()), dh))
        .append_element_content_handler((Cow::Owned("summary".parse::<lol_html::Selector>().unwrap()), sh));
    lol_html::rewrite_str(content, settings).unwrap_or_else(|_| content.to_string())
}

// ---------------------------------------------------------------------
// Image URL discovery and rewriting.

/// The src attributes of the img tags of a markup string, in document
/// order.  The result depends on the markup alone.
pub uninterp spec fn image_srcs_of(html: Seq<char>) -> Seq<Seq<char>>;

/// The character sequences of a sequence of strings.
pub open spec fn strs_view(s: Seq<String>) -> Seq<Seq<char>> {
    s.map_values(|x: String| x@)
}

/// Relies on lol_html::rewrite_str with an element handler on img
/// tags: collects each img tag's src attribute, in document order.
#[verifier::external_body]
pub fn collect_image_srcs(content: &str) -> (r: Vec<String>)
    ensures
        strs_view(r@) == image_srcs_of(content@),
{
    let mut urls: Vec<String> = Vec::new();
    let handler = lol_html::ElementContentHandlers::default().element(
        |el: &mut lol_html::html_content::Element| {
            if let Some(url) = el.get_attribute("src") { urls.push(url); }
            Ok(())
        },
    );
    let settings = lol_html::RewriteStrSettings::new()
        .append_element_content_handler((Cow::Owned("img".parse::<lol_html::Selector>().unwrap()), handler));
    let _ = lol_html::rewrite_str(content, settings);
    urls
}

/// The URL-to-asset-name map of an interning run.
pub open spec fn url_map_of(m: InternerV) -> Map<Seq<char>, Seq<char>> {
    Map::new(
        |u: Seq<char>| has_entry(m, u),
        |u: Seq<char>|
            spec_name(
                m.entries[
                    choose|k: int|
                        0 <= k < m.entries.len() && (#[trigger] m.entries[k]).original_url == u
                ],
            ),
    )
}

/// What rewriting a markup string's img src attributes through a
/// URL map returns.  The result depends on the markup and the map
/// alone.
pub uninterp spec fn rewrite_imgs_of(html: Seq<char>, urls: Map<Seq<char>, Seq<char>>) -> Seq<
    char,
>;

/// Relies on lol_html::rewrite_str with an element handler on img
/// tags: each src attribute is rewritten through the interning run's
/// URL map (an un-interned URL is left in place, so a failed image
/// keeps its original remote URL inlined).
#[verifier::external_body]
pub fn edit_image_urls(content: &str, interner: &Interner) -> (r: String)
    requires
        interner_wf(interner@),
    ensures
        r@ == rewrite_imgs_of(content@, url_map_of(interner@)),
{
    let handler = lol_html::ElementContentHandlers::default().element(
        |el: &mut lol_html::html_content::Element| {
            if let Some(url) = el.get_attribute("src") {
                el.set_attribute("src", &interner.rewrite_url(&url)).ok();
            }
            Ok(())
        },
    );
    let settings = lol_html::RewriteStrSettings::new()
        .append_element_content_handler((Cow::Owned("img".parse::<lol_html::Selector>().unwrap()), handler));
    lol_html::rewrite_str(content, settings).unwrap_or_else(|_| content.to_string())
}

// ---------------------------------------------------------------------
// HTML to XML re-serialization, for readers that require XHTML.

/// What parsing the fragment as HTML and re-serializing it as XML
/// returns, including the serializer's fixed html envelope.  The
/// result depends on the markup alone.
pub uninterp spec fn xml_of(html: Seq<char>) -> Seq<char>;

/// Relies on html5ever::parse_fragment and xml5ever::serialize: the
/// fragment re-serialized as XML, wrapped in the serializer's fixed
/// `<html xmlns=...>` envelope.
#[verifier::external_body]
fn html_to_xml_raw(content: &str) -> (r: String)
    ensures
        r@ == xml_of(content@),
{
    let ns = markup5ever::Namespace::from("http://www.w3.org/1999/xhtml");
    let qual_name = markup5ever::QualName::new(None, ns, markup5ever::LocalName::from("body"));
    let dom = html5ever::parse_fragment(
        markup5ever_rcdom::RcDom::default(), html5ever::ParseOpts::default(), qual_name, vec![], false,
    ).one(content);
    let document: markup5ever_rcdom::SerializableHandle = dom.document.into();
    let mut bytes = vec![];
    let opts = xml5ever::serialize::SerializeOpts {
        traversal_scope: xml5ever::serialize::TraversalScope::ChildrenOnly(None),
    };
    let _ = xml5ever::serialize::serialize(&mut bytes, &document, opts);
    String::from_utf8(bytes).unwrap_or_default()
}

/// The serializer's fixed envelope stripped off, when present.
pub open spec fn spec_strip_xml_envelope(s: Seq<char>) -> Seq<char> {
    let pre = "<html xmlns=\"http://www.w3.org/1999/xhtml\">"@;
    let suf = "</html>"@;
    if s.len() >= pre.len() + suf.len() && s.take(pre.len() as int) == pre && s.skip(
        s.len() - suf.len(),
    ) == suf {
        s.subrange(pre.len() as int, s.len() - suf.len())
    } else {
        s
    }
}

/// Parses the fragment as HTML and re-serializes it as XML, so that
/// void tags come out self-closed; the serializer's wrapping html tag
/// is stripped.
pub fn html_to_xml(content: &str) -> (r: String)
    ensures
        r@ == spec_strip_xml_envelope(xml_of(content@)),
{
    let raw = html_to_xml_raw(content);
    let cs = str_chars_vec(raw.as_str());
    let pre = str_chars_vec("<html xmlns=\"http://www.w3.org/1999/xhtml\">");
    let suf = str_chars_vec("</html>");
    let ghost sv = raw@;
    proof {
        reveal_strlit("<html xmlns=\"http://www.w3.org/1999/xhtml\">");
        reveal_strlit("</html>");
    }
    let np = pre.len();
    let ns = suf.len();
    if cs.len() < np + ns {
        return raw;
    }
    let mut k: usize = 0;
    while k < np
        invariant
            k <= np,
            np == pre@.len(),
            ns == suf@.len(),
            cs@ == sv,
            raw@ == sv,
            sv == xml_of(content@),
            pre@ == "<html xmlns=\"http://www.w3.org/1999/xhtml\">"@,
            suf@ == "</html>"@,
            sv.len() >= np + ns,
            forall|m: int| 0 <= m < k ==> sv[m] == pre@[m],
        decreases np - k,
    {
        if cs[k] != pre[k] {
            proof {
                assert(sv.take(np as int)[k as int] == sv[k as int]);
                assert(sv.take(np as int) != pre@);
            }
            return raw;
        }
        k = k + 1;
    }
    let base = cs.len() - ns;
    let mut j: usize = 0;
    while j < ns
        invariant
            j <= ns,
            np == pre@.len(),
            ns == suf@.len(),
            cs@ == sv,
            raw@ == sv,
            sv == xml_of(content@),
            suf@ == "</html>"@,
            pre@ == "<html xmlns=\"http://www.w3.org/1999/xhtml\">"@,
            sv.len() >= np + ns,
            base == sv.len() - ns,
            base + ns <= usize::MAX,
            sv.take(np as int) == pre@,
            forall|m: int| 0 <= m < j ==> sv[base + m] == suf@[m],
        decreases ns - j,
    {
        if cs[base + j] != suf[j] {
            proof {
                assert(sv.skip(base as int)[j as int] == sv[base + j]);
                assert(sv.skip(base as int) != suf@);
            }
            return raw;
        }
        j = j + 1;
    }
    proof {
        assert(sv.take(np as int) =~= pre@);
        assert(sv.skip(base as int) =~= suf@);
    }
    let mut out = String::new();
    let mut i: usize = np;
    while i < base
        invariant
            np <= i <= base,
            base <= cs@.len(),
            cs@ == sv,
            np == pre@.len(),
            out@ == sv.subrange(np as int, i as int),
        decreases base - i,
    {
        push_char(&mut out, cs[i]);
        proof {
            assert(out@ =~= sv.subrange(np as int, i + 1));
        }
        i = i + 1;
    }
    proof {
        assert(out@ == spec_strip_xml_envelope(sv));
    }
    out
}

// ---------------------------------------------------------------------
// The inline image URLs of a thread.

/// The src attributes of a reply sequence's contents, in order.
pub open spec fn srcs_of_replies(rs: Seq<crate::types::ReplyV>) -> Seq<Seq<char>>
    decreases rs.len(),
{
    if rs.len() == 0 {
        Seq::empty()
    } else {
        image_srcs_of(rs[0].content) + srcs_of_replies(rs.skip(1))
    }
}

/// Every inline image URL a thread's markup references, in document
/// order: the post's content, its description, then each reply.  The
/// interning run deduplicates; this listing does not.
pub open spec fn spec_thread_image_urls(t: crate::types::ThreadV) -> Seq<Seq<char>> {
    image_srcs_of(t.post.content) + (match t.post.description {
        Some(d) => image_srcs_of(d),
        None => Seq::<Seq<char>>::empty(),
    }) + srcs_of_replies(t.replies)
}

proof fn lemma_srcs_of_replies_snoc(rs: Seq<crate::types::ReplyV>, i: int)
    requires
        0 <= i < rs.len(),
    ensures
        srcs_of_replies(rs.take(i + 1)) == srcs_of_replies(rs.take(i)) + image_srcs_of(
            rs[i].content,
        ),
    decreases i,
{
    let a = rs.take(i + 1);
    let b = rs.take(i);
    if i == 0 {
        assert(a.skip(1) =~= Seq::<crate::types::ReplyV>::empty());
        assert(b =~= Seq::<crate::types::ReplyV>::empty());
        assert(srcs_of_replies(a) == image_srcs_of(a[0].content) + srcs_of_replies(a.skip(1)));
        assert(srcs_of_replies(a) =~= srcs_of_replies(b) + image_srcs_of(rs[i].content));
    } else {
        lemma_srcs_of_replies_snoc(rs.skip(1), i - 1);
        assert(a.skip(1) =~= rs.skip(1).take(i));
        assert(b.skip(1) =~= rs.skip(1).take(i - 1));
        assert(a[0] == rs[0] && b[0] == rs[0]);
        assert(rs.skip(1)[i - 1] == rs[i]);
        assert(srcs_of_replies(a) == image_srcs_of(rs[0].content) + srcs_of_replies(
            rs.skip(1).take(i),
        ));
        assert(srcs_of_replies(b) == image_srcs_of(rs[0].content) + srcs_of_replies(
            rs.skip(1).take(i - 1),
        ));
        assert(srcs_of_replies(a) =~= srcs_of_replies(b) + image_srcs_of(rs[i].content));
    }
}

fn append_all(out: &mut Vec<String>, more: &Vec<String>)
    ensures
        strs_view(final(out)@) == strs_view(old(out)@) + strs_view(more@),
{
    let ghost base = strs_view(old(out)@);
    let ghost added = strs_view(more@);
    let n = more.len();
    let mut k: usize = 0;
    while k < n
        invariant
            k <= n,
            n == more@.len(),
            added == strs_view(more@),
            strs_view(out@) == base + added.take(k as int),
        decreases n - k,
    {
        let ghost before = strs_view(out@);
        out.push(more[k].clone());
        proof {
            assert(strs_view(out@) =~= before.push(more@[k as int]@));
            assert(added[k as int] == more@[k as int]@);
            assert(strs_view(out@) =~= base + added.take(k + 1));
        }
        k = k + 1;
    }
    proof {
        assert(added.take(n as int) =~= added);
    }
}

impl Thread {
    /// Every inline image URL the thread's markup references, in
    /// document order, duplicates included.
    pub fn image_urls(&self) -> (r: Vec<String>)
        ensures
            strs_view(r@) == spec_thread_image_urls(self@),
    {
        let mut out = collect_image_srcs(self.post.content.as_str());
        let ghost part1 = image_srcs_of(self@.post.content);
        proof {
            assert(strs_view(out@) == part1);
        }
        match &self.post.description {
            Some(d) => {
                let more = collect_image_srcs(d.as_str());
                append_all(&mut out, &more);
            },
            None => {},
        }
        let ghost part2 = part1 + (match self@.post.description {
            Some(d) => image_srcs_of(d),
            None => Seq::<Seq<char>>::empty(),
        });
        proof {
            assert(strs_view(out@) =~= part2);
        }
        let n = self.replies.len();
        let mut k: usize = 0;
        while k < n
            invariant
                k <= n,
                n == self.replies@.len(),
                self@.replies.len() == n,
                forall|m: int| 0 <= m < n ==> self@.replies[m] == self.replies@[m]@,
                strs_view(out@) == part2 + srcs_of_replies(self@.replies.take(k as int)),
            decreases n - k,
        {
            let more = collect_image_srcs(self.replies[k].content.as_str());
            append_all(&mut out, &more);
            proof {
                lemma_srcs_of_replies_snoc(self@.replies, k as int);
                assert(strs_view(out@) =~= part2 + srcs_of_replies(
                    self@.replies.take(k + 1),
                ));
            }
            k = k + 1;
        }
        proof {
            assert(self@.replies.take(n as int) =~= self@.replies);
            assert(strs_view(out@) =~= spec_thread_image_urls(self@));
        }
        out
    }
}

} // verus!
