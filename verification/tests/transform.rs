use glowpub::gen::transform::{
    collect_image_srcs, edit_image_urls, escape_html, flatten_details, html_to_xml,
    repair_and_sanitize,
};
use glowpub::gen::{author_names, raw_content_page, wrap_xml, Options, process_content};
use glowpub::intern_images::{InternedImage, Interner};
use glowpub::types::{BoardInPost, Icon, Post, Reply, Thread, User};
use glowpub::utils::ImageMime;

fn options() -> Options {
    Options { text_to_speech: false, flatten_details: false, jpeg: false, resize_icons: None }
}

#[test]
fn escaping_covers_the_reserved_characters() {
    assert_eq!(escape_html("a & b < c > d \" e ' f"), "a &amp; b &lt; c &gt; d &quot; e &#x27; f");
    assert_eq!(escape_html("plain"), "plain");
    assert_eq!(escape_html(""), "");
}

#[test]
fn sanitizer_strips_scripts() {
    let cleaned = repair_and_sanitize("<b>fine</b><script>alert(1)</script>");
    assert!(cleaned.contains("<b>fine</b>"));
    assert!(!cleaned.contains("script"));
    assert!(!cleaned.contains("alert"));
}

#[test]
fn sanitizer_repairs_unclosed_markup() {
    let cleaned = repair_and_sanitize("<em>unclosed");
    assert!(cleaned.contains("</em>"));
}

#[test]
fn image_sources_are_collected_in_order() {
    let html = r#"<p><img src="https://a/1.png"> and <img src="https://a/2.png"></p>"#;
    let urls = collect_image_srcs(html);
    assert_eq!(urls, vec!["https://a/1.png".to_string(), "https://a/2.png".to_string()]);
    assert_eq!(collect_image_srcs("<p>no images</p>"), Vec::<String>::new());
}

#[test]
fn interned_urls_are_rewritten_and_unknown_urls_kept() {
    let mut run = Interner::new();
    run.insert(InternedImage {
        id: Some(9),
        original_url: "https://a/1.png".to_string(),
        mime: ImageMime::Png,
        data: vec![],
    });
    let html = r#"<img src="https://a/1.png"><img src="https://a/2.png">"#;
    let rewritten = edit_image_urls(html, &run);
    assert!(rewritten.contains("src=\"glowfic_9.png\""));
    assert!(rewritten.contains("src=\"https://a/2.png\""));
}

#[test]
fn details_flattening_rewrites_tags() {
    let html = "<details><summary>more</summary>body</details>";
    let flat = flatten_details(html);
    assert!(flat.contains("<blockquote>"));
    assert!(flat.contains("<p>"));
    assert!(!flat.contains("<details>"));
}

#[test]
fn xml_serialization_closes_void_tags() {
    let xml = html_to_xml("a<br>b");
    assert!(xml == "a<br/>b" || xml == "a<br></br>b", "got: {xml}");
    // The serializer's own html envelope is stripped.
    assert!(!xml.contains("<html"));
}

#[test]
fn xml_page_envelope_carries_title_and_body() {
    let page = wrap_xml("My & Title", "<p>body</p>");
    assert!(page.starts_with("<?xml version='1.0' encoding='utf-8'?>"));
    assert!(page.contains("<title>My & Title</title>"));
    assert!(page.contains("<p>body</p>"));
    assert!(page.contains("stylesheet.css"));
}

#[test]
fn content_blocks_join_with_rules() {
    let blocks = vec!["one".to_string(), "two".to_string(), "three".to_string()];
    let page = raw_content_page(&blocks);
    assert!(page.contains("one<hr>two<hr>three"));
    assert!(page.contains("<div class=\"content\">"));
    let single = raw_content_page(&vec!["only".to_string()]);
    assert!(single.contains("only"));
    assert!(!single.contains("<hr>"));
}

#[test]
fn author_lines_follow_house_style() {
    let one = vec![User { id: 1, username: "alice".to_string() }];
    assert_eq!(author_names(&one), "alice");
    let two = vec![
        User { id: 1, username: "alice".to_string() },
        User { id: 2, username: "bob".to_string() },
    ];
    assert_eq!(author_names(&two), "alice &#38; bob");
    let three = vec![
        User { id: 1, username: "alice".to_string() },
        User { id: 2, username: "bob".to_string() },
        User { id: 3, username: "carol".to_string() },
    ];
    assert_eq!(author_names(&three), "alice, bob, &#38; carol");
    assert_eq!(author_names(&vec![]), "");
    let escaped = vec![User { id: 1, username: "a&b".to_string() }];
    assert_eq!(author_names(&escaped), "a&amp;b");
}

#[test]
fn the_content_pipeline_cleans_and_rewrites() {
    let mut run = Interner::new();
    run.insert(InternedImage {
        id: Some(4),
        original_url: "https://a/i.png".to_string(),
        mime: ImageMime::Png,
        data: vec![],
    });
    let raw = r#"<script>bad()</script><p><img src="https://a/i.png"></p>"#;
    let processed = process_content(raw, options(), &run);
    assert!(!processed.contains("script"));
    assert!(processed.contains("glowfic_4.png"));
}

#[test]
fn thread_markup_lists_every_inline_image() {
    let post = Post {
        id: 1,
        authors: vec![],
        board: BoardInPost { id: 1, name: "b".to_string() },
        character: None,
        content: r#"<img src="https://a/1.png">"#.to_string(),
        created_at: 0,
        description: Some(r#"<img src="https://a/2.png">"#.to_string()),
        icon: None,
        num_replies: 1,
        section: None,
        section_order: 0,
        status: "s".to_string(),
        subject: "t".to_string(),
        tagged_at: 0,
    };
    let reply = Reply {
        id: 2,
        character: None,
        character_name: None,
        content: r#"<img src="https://a/3.png">"#.to_string(),
        created_at: 0,
        icon: None,
        updated_at: 0,
        user: User { id: 1, username: "u".to_string() },
    };
    let thread = Thread { post, replies: vec![reply] };
    let urls = thread.image_urls();
    assert_eq!(
        urls,
        vec![
            "https://a/1.png".to_string(),
            "https://a/2.png".to_string(),
            "https://a/3.png".to_string(),
        ]
    );
}

#[test]
fn thread_icons_keep_document_order() {
    let icon = |id: u64| Icon { id, keyword: None, url: Some(format!("https://a/{id}.png")) };
    let post = Post {
        id: 1,
        authors: vec![],
        board: BoardInPost { id: 1, name: "b".to_string() },
        character: None,
        content: String::new(),
        created_at: 0,
        description: None,
        icon: Some(icon(10)),
        num_replies: 2,
        section: None,
        section_order: 0,
        status: "s".to_string(),
        subject: "t".to_string(),
        tagged_at: 0,
    };
    let reply = |i: Option<Icon>| Reply {
        id: 2,
        character: None,
        character_name: None,
        content: String::new(),
        created_at: 0,
        icon: i,
        updated_at: 0,
        user: User { id: 1, username: "u".to_string() },
    };
    let thread = Thread { post, replies: vec![reply(None), reply(Some(icon(11)))] };
    let ids: Vec<u64> = thread.icons().iter().map(|i| i.id).collect();
    assert_eq!(ids, vec![10, 11]);
}
