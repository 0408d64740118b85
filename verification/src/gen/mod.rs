//! Page assembly helpers that are this crate's own logic: author-name
//! joining, content-block joining, the XHTML page envelope, and the
//! content pipeline that strings the markup transforms together.
//! Full document rendering (EPUB containers, covers) is the consuming
//! program's work.

pub mod transform;

use vstd::prelude::*;

use crate::gen::transform::{
    edit_image_urls, escape_html, flatten_details, flatten_of, html_to_xml, repair_and_sanitize,
    rewrite_imgs_of, sanitize_of, spec_escape_html, spec_strip_xml_envelope, url_map_of, xml_of,
};
use crate::intern_images::{interner_wf, Interner};
use crate::textfmt::push_lit;
use crate::types::User;

verus! {

/// Rendering options for the output documents.
#[derive(Debug, Clone, Copy)]
pub struct Options {
    /// Simplify character and user lines for text-to-speech output.
    pub text_to_speech: bool,
    /// Replace details/summary tags by always-open equivalents.
    pub flatten_details: bool,
    /// Convert raster images to JPEG for size.
    pub jpeg: bool,
    /// Scale icons wider than this down to this width.
    pub resize_icons: Option<u32>,
}

// ---------------------------------------------------------------------
// Author names.

pub open spec fn spec_names_list(us: Seq<Seq<char>>) -> Seq<char>
    decreases us.len(),
{
    if us.len() == 0 {
        Seq::empty()
    } else if us.len() == 1 {
        spec_escape_html(us[0])
    } else {
        spec_names_list(us.drop_last()) + ", "@ + spec_escape_html(us.last())
    }
}

/// The displayed author line: one name alone, two joined by an
/// ampersand, more as a comma list with an ampersand before the last.
pub open spec fn spec_author_names(us: Seq<Seq<char>>) -> Seq<char> {
    if us.len() == 0 {
        Seq::empty()
    } else if us.len() == 1 {
        spec_escape_html(us[0])
    } else if us.len() == 2 {
        spec_escape_html(us[0]) + " &#38; "@ + spec_escape_html(us[1])
    } else {
        spec_names_list(us.drop_last()) + ", &#38; "@ + spec_escape_html(us.last())
    }
}

pub open spec fn usernames_of(authors: Seq<User>) -> Seq<Seq<char>> {
    authors.map_values(|u: User| u.username@)
}

/// Joins the authors' names for display, HTML-escaped.
pub fn author_names(authors: &Vec<User>) -> (r: String)
    ensures
        r@ == spec_author_names(usernames_of(authors@)),
{
    let ghost us = usernames_of(authors@);
    let n = authors.len();
    proof {
        assert(us.len() == n);
    }
    if n == 0 {
        let r = String::new();
        return r;
    }
    if n == 1 {
        let r = escape_html(authors[0].username.as_str());
        proof {
            assert(us[0] == authors@[0].username@);
        }
        return r;
    }
    if n == 2 {
        let mut r = escape_html(authors[0].username.as_str());
        r.append(" &#38; ");
        let e1 = escape_html(authors[1].username.as_str());
        r.append(e1.as_str());
        proof {
            assert(us[0] == authors@[0].username@);
            assert(us[1] == authors@[1].username@);
            assert(r@ =~= spec_author_names(us));
        }
        return r;
    }
    let mut out = escape_html(authors[0].username.as_str());
    proof {
        assert(us.take(1).len() == 1);
        assert(us.take(1)[0] == us[0]);
        assert(us[0] == authors@[0].username@);
        assert(out@ == spec_names_list(us.take(1)));
    }
    let mut k: usize = 1;
    while k < n - 1
        invariant
            1 <= k <= n - 1,
            n == authors@.len(),
            n >= 3,
            us == usernames_of(authors@),
            us.len() == n,
            out@ == spec_names_list(us.take(k as int)),
        decreases n - k,
    {
        out.append(", ");
        let e = escape_html(authors[k].username.as_str());
        out.append(e.as_str());
        proof {
            assert(us.take(k + 1).drop_last() =~= us.take(k as int));
            assert(us.take(k + 1).last() == us[k as int]);
            assert(us[k as int] == authors@[k as int].username@);
            assert(us.take(k + 1).len() == k + 1 >= 2);
            assert(out@ =~= spec_names_list(us.take(k + 1)));
        }
        k = k + 1;
    }
    out.append(", &#38; ");
    let e = escape_html(authors[n - 1].username.as_str());
    out.append(e.as_str());
    proof {
        assert(us.take(n - 1) =~= us.drop_last());
        assert(us[n - 1] == authors@[n - 1].username@);
        assert(us.last() == us[n - 1]);
        assert(out@ =~= spec_author_names(us));
    }
    out
}

// ---------------------------------------------------------------------
// Content pages.

pub open spec fn spec_joined_hr(bs: Seq<Seq<char>>) -> Seq<char>
    decreases bs.len(),
{
    if bs.len() == 0 {
        Seq::empty()
    } else if bs.len() == 1 {
        bs[0]
    } else {
        spec_joined_hr(bs.drop_last()) + "<hr>"@ + bs.last()
    }
}

/// The content division: the blocks joined by horizontal rules.
pub open spec fn spec_raw_content_page(bs: Seq<Seq<char>>) -> Seq<char> {
    "\n\n        <div class=\"content\">\n            "@ + spec_joined_hr(bs)
        + "\n        </div>\n\n        "@
}

/// Joins content blocks into the page's content division.
pub fn raw_content_page(content_blocks: &Vec<String>) -> (r: String)
    ensures
        r@ == spec_raw_content_page(content_blocks.deep_view()),
{
    let ghost bs = content_blocks.deep_view();
    let n = content_blocks.len();
    proof {
        assert(bs.len() == n);
    }
    let mut out = String::new();
    push_lit(&mut out, "\n\n        <div class=\"content\">\n            ");
    let ghost pre = "\n\n        <div class=\"content\">\n            "@;
    let mut k: usize = 0;
    while k < n
        invariant
            k <= n,
            n == content_blocks@.len(),
            bs == content_blocks.deep_view(),
            bs.len() == n,
            out@ == pre + spec_joined_hr(bs.take(k as int)),
            pre == "\n\n        <div class=\"content\">\n            "@,
        decreases n - k,
    {
        if k > 0 {
            push_lit(&mut out, "<hr>");
        }
        let ghost before = out@;
        push_lit(&mut out, content_blocks[k].as_str());
        proof {
            assert(content_blocks@[k as int]@ == bs[k as int]);
            assert(bs.take(k + 1).drop_last() =~= bs.take(k as int));
            assert(bs.take(k + 1).last() == bs[k as int]);
            if k == 0 {
                assert(bs.take(1).len() == 1);
                assert(bs.take(1)[0] == bs[0]);
                assert(out@ =~= pre + spec_joined_hr(bs.take(1)));
            } else {
                assert(bs.take(k + 1).len() >= 2);
                assert(out@ =~= pre + spec_joined_hr(bs.take(k + 1)));
            }
        }
        k = k + 1;
    }
    proof {
        assert(bs.take(n as int) =~= bs);
    }
    push_lit(&mut out, "\n        </div>\n\n        ");
    assert(out@ =~= spec_raw_content_page(bs));
    out
}

/// The fixed XHTML page envelope around a re-serialized content body.
pub open spec fn spec_wrap_xml(subject: Seq<char>, content: Seq<char>) -> Seq<char> {
    "<?xml version='1.0' encoding='utf-8'?>\n<html xmlns=\"http://www.w3.org/1999/xhtml\" lang=\"en\" xml:lang=\"en\">\n    <head>\n        <meta name=\"viewport\" content=\"width=device-width, initial-scale=1.0\"/>\n        <meta name=\"theme-color\" content=\"#000000\"/>\n        <title>"@
        + subject
        + "</title>\n        <meta http-equiv=\"Content-Type\" content=\"text/html; charset=utf-8\"/>\n        <link rel=\"stylesheet\" type=\"text/css\" href=\"stylesheet.css\"/>\n    </head>\n    <body>\n\n        "@
        + spec_strip_xml_envelope(xml_of(content)) + "\n\n    </body>\n</html>\n\n    "@
}

/// Wraps a page body in the XHTML envelope, re-serializing the body
/// as XML so void tags are self-closed.
pub fn wrap_xml(subject: &str, content: &str) -> (r: String)
    ensures
        r@ == spec_wrap_xml(subject@, content@),
{
    let body = html_to_xml(content);
    let mut out = String::new();
    push_lit(
        &mut out,
        "<?xml version='1.0' encoding='utf-8'?>\n<html xmlns=\"http://www.w3.org/1999/xhtml\" lang=\"en\" xml:lang=\"en\">\n    <head>\n        <meta name=\"viewport\" content=\"width=device-width, initial-scale=1.0\"/>\n        <meta name=\"theme-color\" content=\"#000000\"/>\n        <title>",
    );
    push_lit(&mut out, subject);
    push_lit(
        &mut out,
        "</title>\n        <meta http-equiv=\"Content-Type\" content=\"text/html; charset=utf-8\"/>\n        <link rel=\"stylesheet\" type=\"text/css\" href=\"stylesheet.css\"/>\n    </head>\n    <body>\n\n        ",
    );
    push_lit(&mut out, body.as_str());
    push_lit(&mut out, "\n\n    </body>\n</html>\n\n    ");
    assert(out@ =~= spec_wrap_xml(subject@, content@));
    out
}

/// The full content pipeline for one block of markup: repair and
/// sanitize, rewrite inline image URLs to interned asset names, and
/// optionally flatten details tags.
pub open spec fn spec_process_content(
    content: Seq<char>,
    flatten: bool,
    m: crate::intern_images::InternerV,
) -> Seq<char> {
    let rewritten = rewrite_imgs_of(sanitize_of(content), url_map_of(m));
    if flatten {
        flatten_of(rewritten)
    } else {
        rewritten
    }
}

/// Runs one block of markup through the content pipeline.
pub fn process_content(content: &str, options: Options, interner: &Interner) -> (r: String)
    requires
        interner_wf(interner@),
    ensures
        r@ == spec_process_content(content@, options.flatten_details, interner@),
{
    let cleaned = repair_and_sanitize(content);
    let rewritten = edit_image_urls(cleaned.as_str(), interner);
    if options.flatten_details {
        flatten_details(rewritten.as_str())
    } else {
        rewritten
    }
}

} // verus!
