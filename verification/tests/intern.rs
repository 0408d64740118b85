use glowpub::intern_images::{InternedImage, Interner};
use glowpub::utils::{
    extension_to_image_mime, guess_image_mime, mime_to_image_extension, url_hash, ImageMime,
};

fn png_entry(id: Option<u64>, url: &str) -> InternedImage {
    InternedImage {
        id,
        original_url: url.to_string(),
        mime: ImageMime::Png,
        data: vec![1, 2, 3],
    }
}

fn webp_bytes() -> Vec<u8> {
    let img = image::DynamicImage::new_rgb8(2, 2);
    let mut cur = std::io::Cursor::new(Vec::new());
    img.write_to(&mut cur, image::ImageFormat::WebP).unwrap();
    cur.into_inner()
}

#[test]
fn mime_tables() {
    assert_eq!(mime_to_image_extension(&ImageMime::Png), "png");
    assert_eq!(mime_to_image_extension(&ImageMime::Jpeg), "jpeg");
    assert_eq!(ImageMime::Webp.mime_str(), "image/webp");
    assert_eq!(ImageMime::Svg.mime_str(), "image/svg+xml");
    assert_eq!(extension_to_image_mime("jpg"), Some(ImageMime::Jpeg));
    assert_eq!(extension_to_image_mime("jpeg"), Some(ImageMime::Jpeg));
    assert_eq!(extension_to_image_mime("png"), Some(ImageMime::Png));
    assert_eq!(extension_to_image_mime("txt"), None);
}

#[test]
fn sniffing_reads_magic_signatures() {
    assert_eq!(
        guess_image_mime(&vec![0x89, 0x50, 0x4e, 0x47, 0x0d, 0x0a, 0x1a, 0x0a, 0]),
        Some(ImageMime::Png)
    );
    assert_eq!(guess_image_mime(&vec![0xff, 0xd8, 0xff, 0xe0]), Some(ImageMime::Jpeg));
    assert_eq!(guess_image_mime(&vec![0x47, 0x49, 0x46, 0x38, 0x39]), Some(ImageMime::Gif));
    assert_eq!(guess_image_mime(&vec![0x42, 0x4d, 0, 0]), Some(ImageMime::Bmp));
    assert_eq!(guess_image_mime(&webp_bytes()), Some(ImageMime::Webp));
    assert_eq!(guess_image_mime(&vec![0, 1, 2]), None);
    assert_eq!(guess_image_mime(&vec![]), None);
}

#[test]
fn url_hash_matches_sha256() {
    // SHA-256("abc") begins ba7816bf8f01cfea414140de5dae2223.
    assert_eq!(url_hash("abc"), "ba7816bf8f01cfea414140de5dae2223");
    // Different URLs hash differently.
    assert_ne!(url_hash("https://a/"), url_hash("https://b/"));
}

#[test]
fn asset_names_are_stable() {
    let icon = png_entry(Some(9), "https://example.com/x.png");
    assert_eq!(icon.name(), "glowfic_9.png");
    assert!(icon.is_icon());

    let inline = InternedImage {
        id: None,
        original_url: "abc".to_string(),
        mime: ImageMime::Jpeg,
        data: vec![],
    };
    assert!(!inline.is_icon());
    assert_eq!(inline.name(), "hash_ba7816bf8f01cfea414140de5dae2223.jpeg");
}

/// Interning a WEBP source yields an entry with MIME image/png and a
/// "png" filename extension.
#[test]
fn webp_normalizes_to_png() {
    let entry = InternedImage {
        id: Some(7),
        original_url: "https://example.com/pic.webp".to_string(),
        mime: ImageMime::Webp,
        data: webp_bytes(),
    };
    let converted = entry.into_common_format().expect("a valid webp converts");
    assert_eq!(converted.mime, ImageMime::Png);
    assert_eq!(converted.mime.mime_str(), "image/png");
    assert_eq!(converted.name(), "glowfic_7.png");
    // The bytes really were re-encoded, not handed back unchanged.
    assert_eq!(guess_image_mime(&converted.data), Some(ImageMime::Png));
}

#[test]
fn other_formats_pass_through_unchanged() {
    let entry = png_entry(Some(1), "u");
    let same = entry.clone().into_common_format().unwrap();
    assert_eq!(same, entry);
}

#[test]
fn jpeg_conversion_respects_svg_exemption() {
    let svg = InternedImage {
        id: None,
        original_url: "u".to_string(),
        mime: ImageMime::Svg,
        data: b"<svg/>".to_vec(),
    };
    assert_eq!(svg.clone().try_into_jpeg().unwrap(), svg);

    let entry = InternedImage {
        id: Some(3),
        original_url: "u".to_string(),
        mime: ImageMime::Webp,
        data: webp_bytes(),
    };
    let jpeg = entry.try_into_jpeg().expect("raster formats convert");
    assert_eq!(jpeg.mime, ImageMime::Jpeg);
    assert_eq!(guess_image_mime(&jpeg.data), Some(ImageMime::Jpeg));
}

#[test]
fn resize_down_ignores_narrow_images() {
    let entry = InternedImage {
        id: Some(3),
        original_url: "u".to_string(),
        mime: ImageMime::Webp,
        data: webp_bytes(),  // 2 by 2
    };
    let same = entry.clone().resize_down(100).unwrap();
    assert_eq!(same, entry);
}

/// Two icons with one source URL intern to exactly one asset, and
/// both rewrite to that one generated name.
#[test]
fn icons_sharing_a_url_intern_once() {
    let url = "https://example.com/shared.png".to_string();
    let mut run = Interner::new();

    assert!(run.needs(&url));
    run.insert(png_entry(Some(9), &url));

    // The second icon with the same URL needs no second download.
    assert!(!run.needs(&url));

    assert_eq!(run.entries.len(), 1);
    assert_eq!(run.rewrite_url(&url), "glowfic_9.png");
    assert_eq!(run.rewrite_url(&url), "glowfic_9.png");
}

/// One failing icon of three: the other two are interned, the failed
/// one keeps its original remote URL.
#[test]
fn one_failure_does_not_abort_the_run() {
    let ok1 = "https://example.com/a.png".to_string();
    let bad = "https://example.com/broken.png".to_string();
    let ok2 = "https://example.com/c.png".to_string();

    let mut run = Interner::new();
    assert!(run.needs(&ok1));
    run.insert(png_entry(Some(1), &ok1));
    assert!(run.needs(&bad));
    run.mark_skip(bad.clone());
    assert!(run.needs(&ok2));
    run.insert(png_entry(Some(3), &ok2));

    // The failure removed nothing and blocked nothing.
    assert_eq!(run.entries.len(), 2);
    assert_eq!(run.rewrite_url(&ok1), "glowfic_1.png");
    assert_eq!(run.rewrite_url(&ok2), "glowfic_3.png");
    // The failed icon's original URL is left untouched.
    assert_eq!(run.rewrite_url(&bad), bad);
    // And it is not fetched again for the rest of the run.
    assert!(!run.needs(&bad));
}

#[test]
fn undecodable_webp_fails_to_intern() {
    let entry = InternedImage {
        id: Some(7),
        original_url: "u".to_string(),
        mime: ImageMime::Webp,
        data: vec![0, 1, 2, 3],
    };
    assert_eq!(entry.into_common_format(), None);
}

#[test]
fn undecodable_raster_fails_jpeg_conversion() {
    let entry = InternedImage {
        id: Some(7),
        original_url: "u".to_string(),
        mime: ImageMime::Png,
        data: vec![9, 9, 9],
    };
    assert_eq!(entry.try_into_jpeg(), None);
}

#[test]
fn resize_down_leaves_equal_width_unchanged() {
    let entry = InternedImage {
        id: Some(3),
        original_url: "u".to_string(),
        mime: ImageMime::Webp,
        data: webp_bytes(),  // 2 by 2: equal to the threshold, not wider
    };
    let same = entry.clone().resize_down(2).unwrap();
    assert_eq!(same, entry);
}

#[test]
fn resize_down_scales_wider_images() {
    let img = image::DynamicImage::new_rgb8(8, 4);
    let mut cur = std::io::Cursor::new(Vec::new());
    img.write_to(&mut cur, image::ImageFormat::Png).unwrap();
    let entry = InternedImage {
        id: Some(3),
        original_url: "u".to_string(),
        mime: ImageMime::Png,
        data: cur.into_inner(),
    };
    let resized = entry.resize_down(4).expect("a decodable image resizes");
    assert_eq!(resized.mime, ImageMime::Png);
    let back = image::load_from_memory_with_format(&resized.data, image::ImageFormat::Png)
        .expect("the resized bytes decode");
    assert_eq!(back.width(), 4);
    assert_eq!(back.height(), 2);
}

#[test]
fn resize_down_respects_the_smallest_threshold() {
    let img = image::DynamicImage::new_rgb8(8, 4);
    let mut cur = std::io::Cursor::new(Vec::new());
    img.write_to(&mut cur, image::ImageFormat::Png).unwrap();
    let entry = InternedImage {
        id: Some(3),
        original_url: "u".to_string(),
        mime: ImageMime::Png,
        data: cur.into_inner(),
    };
    let resized = entry.resize_down(1).expect("a decodable image resizes");
    let back = image::load_from_memory_with_format(&resized.data, image::ImageFormat::Png)
        .expect("the resized bytes decode");
    assert_eq!(back.width(), 1);
}
