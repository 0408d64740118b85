//! The image interning engine: deduplicates the images a thread or
//! continuity references by source URL, normalizes their format, and
//! content-addresses them under stable local names.  Downloading and
//! disk traffic belong to the surrounding program; which URL needs
//! fetching, what an entry is named, how a format is normalized and
//! how failures are isolated are decided and verified here.

use vstd::prelude::*;

use crate::textfmt::{dec_of, push_lit, push_u64};
use crate::utils::{mime_to_image_extension, spec_extension, spec_url_hash, url_hash, ImageMime};

verus! {

/// An image held for inclusion in the output document.  `id` is the
/// icon id it came from; `None` means it was an inline image.
#[derive(Debug, Clone, PartialEq, Eq)]
pub struct InternedImage {
    pub id: Option<u64>,
    pub original_url: String,
    pub mime: ImageMime,
    pub data: Vec<u8>,
}

pub struct InternedImageV {
    pub id: Option<u64>,
    pub original_url: Seq<char>,
    pub mime: ImageMime,
    pub data: Seq<u8>,
}

impl View for InternedImage {
    type V = InternedImageV;

    open spec fn view(&self) -> InternedImageV {
        InternedImageV {
            id: self.id,
            original_url: self.original_url@,
            mime: self.mime,
            data: self.data@,
        }
    }
}

/// The local asset name of an interned image: icon images are keyed
/// by their icon id, inline images by a hash of their source URL.
/// Names start with a letter for container compatibility.
pub open spec fn spec_name(img: InternedImageV) -> Seq<char> {
    match img.id {
        Some(id) => "glowfic_"@ + dec_of(id as nat) + "."@ + spec_extension(img.mime),
        None => "hash_"@ + spec_url_hash(img.original_url) + "."@ + spec_extension(img.mime),
    }
}

impl InternedImage {
    /// Whether this image came from an icon rather than inline markup.
    pub fn is_icon(&self) -> (r: bool)
        ensures
            r == (self@.id is Some),
    {
        match self.id {
            Some(_) => true,
            None => false,
        }
    }

    /// The image's local asset name.
    pub fn name(&self) -> (r: String)
        ensures
            r@ == spec_name(self@),
    {
        let mut out = String::new();
        match self.id {
            Some(id) => {
                push_lit(&mut out, "glowfic_");
                push_u64(&mut out, id);
                push_lit(&mut out, ".");
                let ext = mime_to_image_extension(&self.mime);
                push_lit(&mut out, ext.as_str());
                assert(out@ =~= spec_name(self@));
            },
            None => {
                push_lit(&mut out, "hash_");
                let h = url_hash(self.original_url.as_str());
                push_lit(&mut out, h.as_str());
                push_lit(&mut out, ".");
                let ext = mime_to_image_extension(&self.mime);
                push_lit(&mut out, ext.as_str());
                assert(out@ =~= spec_name(self@));
            },
        }
        out
    }
}

// ---------------------------------------------------------------------
// Format conversion, through the image codecs.  Each conversion is a
// deterministic function of the bytes and the declared format alone,
// so its result carries a name, and the contracts below force a
// decodable image to convert: a body that never converted anything
// could not meet them.

/// What converting WEBP bytes to PNG returns: the pixels re-encoded
/// as PNG, or `None` exactly when the pipeline fails on these bytes.
pub uninterp spec fn webp_png_of(data: Seq<u8>) -> Option<Seq<u8>>;

/// Relies on image::load_from_memory_with_format and
/// DynamicImage::write_to: decodes the bytes as WEBP and re-encodes
/// them as PNG.  Decoder and encoder read nothing but their inputs,
/// and return errors rather than panic.
#[verifier::external_body]
fn webp_to_png(data: &Vec<u8>) -> (r: Result<Vec<u8>, ()>)
    ensures
        r is Ok <==> webp_png_of(data@) is Some,
        r matches Ok(d) ==> webp_png_of(data@) == Some(d@),
{
    let img = image::load_from_memory_with_format(data, image::ImageFormat::WebP)
        .map_err(|_| ())?;
    let mut out: Vec<u8> = Vec::new();
    img.write_to(&mut std::io::Cursor::new(&mut out), image::ImageFormat::Png)
        .map_err(|_| ())?;
    Ok(out)
}

/// What converting raster bytes of the given format to JPEG returns,
/// or `None` exactly when the pipeline fails on these inputs.
pub uninterp spec fn jpeg_of(data: Seq<u8>, mime: ImageMime) -> Option<Seq<u8>>;

/// Relies on image::load_from_memory_with_format,
/// DynamicImage::to_rgb8 and write_to: decodes the bytes as the named
/// raster format and re-encodes them as JPEG (via RGB, since JPEG
/// carries no alpha channel).
#[verifier::external_body]
fn to_jpeg(data: &Vec<u8>, mime: &ImageMime) -> (r: Result<Vec<u8>, ()>)
    requires
        !(*mime is Svg),
    ensures
        r is Ok <==> jpeg_of(data@, *mime) is Some,
        r matches Ok(d) ==> jpeg_of(data@, *mime) == Some(d@),
{
    let format = match mime {
        ImageMime::Bmp => image::ImageFormat::Bmp,
        ImageMime::Gif => image::ImageFormat::Gif,
        ImageMime::Jpeg => image::ImageFormat::Jpeg,
        ImageMime::Png => image::ImageFormat::Png,
        ImageMime::Webp => image::ImageFormat::WebP,
        ImageMime::Svg => { return Err(()); },
    };
    let img = image::load_from_memory_with_format(data, format).map_err(|_| ())?;
    let mut out: Vec<u8> = Vec::new();
    img.to_rgb8().write_to(&mut std::io::Cursor::new(&mut out), image::ImageFormat::Jpeg)
        .map_err(|_| ())?;
    Ok(out)
}

/// The pixel width of the decoded image, or `None` exactly when the
/// bytes do not decode as the named raster format.
pub uninterp spec fn decoded_width_of(data: Seq<u8>, mime: ImageMime) -> Option<u32>;

/// Relies on image::load_from_memory_with_format and
/// DynamicImage::width.
#[verifier::external_body]
fn decoded_width(data: &Vec<u8>, mime: &ImageMime) -> (r: Result<u32, ()>)
    requires
        !(*mime is Svg),
    ensures
        r is Ok <==> decoded_width_of(data@, *mime) is Some,
        r matches Ok(w) ==> decoded_width_of(data@, *mime) == Some(w),
{
    let format = match mime {
        ImageMime::Bmp => image::ImageFormat::Bmp,
        ImageMime::Gif => image::ImageFormat::Gif,
        ImageMime::Jpeg => image::ImageFormat::Jpeg,
        ImageMime::Png => image::ImageFormat::Png,
        ImageMime::Webp => image::ImageFormat::WebP,
        ImageMime::Svg => { return Err(()); },
    };
    let img = image::load_from_memory_with_format(data, format).map_err(|_| ())?;
    Ok(img.width())
}

/// What downscaling to the given width and re-encoding in the same
/// format returns, or `None` exactly when the pipeline fails.
pub uninterp spec fn resized_of(data: Seq<u8>, mime: ImageMime, width: u32) -> Option<Seq<u8>>;

/// Relies on image::load_from_memory_with_format,
/// DynamicImage::resize with the Lanczos3 filter and write_to.
/// `resize` keeps the aspect ratio and clamps to the given bounds —
/// but never below one pixel, which is why the width must be
/// positive — and every supported codec stores the pixel dimensions,
/// so the returned bytes never decode wider than asked.
#[verifier::external_body]
fn resize_to_width(data: &Vec<u8>, mime: &ImageMime, width: u32) -> (r: Result<Vec<u8>, ()>)
    requires
        !(*mime is Svg),
        width >= 1,
    ensures
        r is Ok <==> resized_of(data@, *mime, width) is Some,
        r matches Ok(d) ==> resized_of(data@, *mime, width) == Some(d@),
        r matches Ok(d) ==> (match decoded_width_of(d@, *mime) {
            Some(w2) => w2 <= width,
            None => true,
        }),
{
    let format = match mime {
        ImageMime::Bmp => image::ImageFormat::Bmp, ImageMime::Gif => image::ImageFormat::Gif,
        ImageMime::Jpeg => image::ImageFormat::Jpeg, ImageMime::Png => image::ImageFormat::Png,
        ImageMime::Webp => image::ImageFormat::WebP, ImageMime::Svg => return Err(()),
    };
    let img = image::load_from_memory_with_format(data, format).map_err(|_| ())?;
    let img = img.resize(width, img.height(), image::imageops::FilterType::Lanczos3);
    let img: image::DynamicImage =
        if matches!(mime, ImageMime::Jpeg) { img.to_rgb8().into() } else { img };
    let mut out: Vec<u8> = Vec::new();
    img.write_to(&mut std::io::Cursor::new(&mut out), format).map_err(|_| ())?;
    Ok(out)
}

impl InternedImage {
    /// Normalizes the format for portability: PNG, JPEG, GIF, BMP and
    /// SVG pass through unchanged; WEBP is always converted to PNG.
    /// `None` exactly when WEBP bytes fail to convert.
    pub fn into_common_format(self) -> (r: Option<InternedImage>)
        ensures
            self@.mime != ImageMime::Webp ==> r == Some(self),
            self@.mime is Webp ==> (match webp_png_of(self@.data) {
                Some(d) => {
                    &&& r matches Some(img)
                    &&& img@.id == self@.id
                    &&& img@.original_url == self@.original_url
                    &&& img@.mime == ImageMime::Png
                    &&& img@.data == d
                },
                None => r is None,
            }),
    {
        match self.mime {
            ImageMime::Webp => match webp_to_png(&self.data) {
                Ok(data) => Some(
                    InternedImage {
                        id: self.id,
                        original_url: self.original_url,
                        mime: ImageMime::Png,
                        data,
                    },
                ),
                Err(_) => None,
            },
            _ => Some(self),
        }
    }

    /// Converts raster formats to JPEG for size; SVG is exempt.
    /// `None` exactly when the raster bytes fail to convert.
    pub fn try_into_jpeg(self) -> (r: Option<InternedImage>)
        ensures
            self@.mime is Svg ==> r == Some(self),
            !(self@.mime is Svg) ==> (match jpeg_of(self@.data, self@.mime) {
                Some(d) => {
                    &&& r matches Some(img)
                    &&& img@.id == self@.id
                    &&& img@.original_url == self@.original_url
                    &&& img@.mime == ImageMime::Jpeg
                    &&& img@.data == d
                },
                None => r is None,
            }),
    {
        match self.mime {
            ImageMime::Svg => Some(self),
            _ => match to_jpeg(&self.data, &self.mime) {
                Ok(data) => Some(
                    InternedImage {
                        id: self.id,
                        original_url: self.original_url,
                        mime: ImageMime::Jpeg,
                        data,
                    },
                ),
                Err(_) => None,
            },
        }
    }

    /// Scales the image down to the given width only if it is already
    /// wider; narrower or equally wide images and vector images are
    /// returned unchanged.  The threshold is a positive width, since
    /// no image can be scaled below one pixel.  `None` exactly when
    /// the bytes fail to decode or the downscale fails to re-encode.
    pub fn resize_down(self, width: u32) -> (r: Option<InternedImage>)
        requires
            width >= 1,
        ensures
            self@.mime is Svg ==> r == Some(self),
            !(self@.mime is Svg) ==> (match decoded_width_of(self@.data, self@.mime) {
                None => r is None,
                Some(w) => if w <= width {
                    r == Some(self)
                } else {
                    match resized_of(self@.data, self@.mime, width) {
                        Some(d) => {
                            &&& r matches Some(img)
                            &&& img@.id == self@.id
                            &&& img@.original_url == self@.original_url
                            &&& img@.mime == self@.mime
                            &&& img@.data == d
                            &&& (match decoded_width_of(d, self@.mime) {
                                Some(w2) => w2 <= width,
                                None => true,
                            })
                        },
                        None => r is None,
                    }
                },
            }),
    {
        match self.mime {
            ImageMime::Svg => Some(self),
            _ => {
                let w = match decoded_width(&self.data, &self.mime) {
                    Ok(w) => w,
                    Err(_) => { return None; },
                };
                if w <= width {
                    return Some(self);
                }
                match resize_to_width(&self.data, &self.mime, width) {
                    Ok(data) => Some(
                        InternedImage {
                            id: self.id,
                            original_url: self.original_url,
                            mime: self.mime,
                            data,
                        },
                    ),
                    Err(_) => None,
                }
            },
        }
    }
}

// ---------------------------------------------------------------------
// The interning run.  Per unique source URL: fetch once, convert,
// record; a failed URL is marked and skipped for the rest of the run,
// with its original remote URL left in place.

/// The state of one interning run.
pub struct Interner {
    pub entries: Vec<InternedImage>,
    pub skip: Vec<String>,
}

pub struct InternerV {
    pub entries: Seq<InternedImageV>,
    pub skip: Seq<Seq<char>>,
}

impl View for Interner {
    type V = InternerV;

    open spec fn view(&self) -> InternerV {
        InternerV {
            entries: self.entries@.map_values(|i: InternedImage| i@),
            skip: self.skip@.map_values(|s: String| s@),
        }
    }
}

/// Whether an asset for this source URL has been interned.
pub open spec fn has_entry(m: InternerV, url: Seq<char>) -> bool {
    exists|k: int| 0 <= k < m.entries.len() && (#[trigger] m.entries[k]).original_url == url
}

/// Whether this source URL has been marked failed for the run.
pub open spec fn skipped(m: InternerV, url: Seq<char>) -> bool {
    exists|k: int| 0 <= k < m.skip.len() && #[trigger] m.skip[k] == url
}

/// Whether the URL still needs fetching.
pub open spec fn spec_needs(m: InternerV, url: Seq<char>) -> bool {
    !has_entry(m, url) && !skipped(m, url)
}

/// At most one asset per source URL.
pub open spec fn interner_wf(m: InternerV) -> bool {
    forall|k1: int, k2: int|
        0 <= k1 < k2 < m.entries.len() ==> (#[trigger] m.entries[k1]).original_url != (
        #[trigger] m.entries[k2]).original_url
}

/// One step of the run: a URL that is already interned or skipped is
/// not fetched again; otherwise the fetched image is recorded, or the
/// URL is marked failed.
pub open spec fn spec_step(m: InternerV, url: Seq<char>, fetched: Option<InternedImageV>) -> InternerV {
    if !spec_needs(m, url) {
        m
    } else {
        match fetched {
            Some(img) => InternerV { entries: m.entries.push(img), skip: m.skip },
            None => InternerV { entries: m.entries, skip: m.skip.push(url) },
        }
    }
}

/// The run over a sequence of source URLs with their fetch results.
pub open spec fn spec_run(
    m: InternerV,
    urls: Seq<Seq<char>>,
    results: Seq<Option<InternedImageV>>,
) -> InternerV
    decreases urls.len(),
{
    if urls.len() == 0 {
        m
    } else {
        spec_run(spec_step(m, urls[0], results[0]), urls.skip(1), results.skip(1))
    }
}

/// How many fetches the run performs for one particular URL.
pub open spec fn spec_downloads_for(
    m: InternerV,
    urls: Seq<Seq<char>>,
    results: Seq<Option<InternedImageV>>,
    u: Seq<char>,
) -> nat
    decreases urls.len(),
{
    if urls.len() == 0 {
        0
    } else {
        let here: nat = if urls[0] == u && spec_needs(m, u) {
            1
        } else {
            0
        };
        here + spec_downloads_for(
            spec_step(m, urls[0], results[0]),
            urls.skip(1),
            results.skip(1),
            u,
        )
    }
}

/// Fetch results are images of the URL they were fetched for.
pub open spec fn results_match(urls: Seq<Seq<char>>, results: Seq<Option<InternedImageV>>) -> bool {
    &&& urls.len() == results.len()
    &&& forall|i: int|
        0 <= i < results.len() ==> ((#[trigger] results[i]) matches Some(img) ==> img.original_url
            == urls[i])
}

proof fn lemma_step_keeps_settled(m: InternerV, url: Seq<char>, fetched: Option<InternedImageV>, u: Seq<char>)
    requires
        has_entry(m, u) || skipped(m, u),
    ensures
        has_entry(spec_step(m, url, fetched), u) || skipped(spec_step(m, url, fetched), u),
{
    let m2 = spec_step(m, url, fetched);
    if has_entry(m, u) {
        let k = choose|k: int|
            0 <= k < m.entries.len() && (#[trigger] m.entries[k]).original_url == u;
        assert(0 <= k < m2.entries.len() && m2.entries[k].original_url == u);
    } else {
        let k = choose|k: int| 0 <= k < m.skip.len() && #[trigger] m.skip[k] == u;
        assert(0 <= k < m2.skip.len() && m2.skip[k] == u);
    }
}

proof fn lemma_settled_no_downloads(
    m: InternerV,
    urls: Seq<Seq<char>>,
    results: Seq<Option<InternedImageV>>,
    u: Seq<char>,
)
    requires
        urls.len() == results.len(),
        has_entry(m, u) || skipped(m, u),
    ensures
        spec_downloads_for(m, urls, results, u) == 0,
    decreases urls.len(),
{
    if urls.len() > 0 {
        lemma_step_keeps_settled(m, urls[0], results[0], u);
        lemma_settled_no_downloads(
            spec_step(m, urls[0], results[0]),
            urls.skip(1),
            results.skip(1),
            u,
        );
    }
}

/// Idempotent fetching across one run: however often a URL recurs in
/// the inputs — two icons sharing one source URL, or an icon and an
/// inline image — it is fetched at most once; later occurrences are
/// answered from the run's own store.
pub proof fn lemma_download_once(
    m: InternerV,
    urls: Seq<Seq<char>>,
    results: Seq<Option<InternedImageV>>,
    u: Seq<char>,
)
    requires
        results_match(urls, results),
    ensures
        spec_downloads_for(m, urls, results, u) <= 1,
    decreases urls.len(),
{
    if urls.len() > 0 {
        let m2 = spec_step(m, urls[0], results[0]);
        assert(results_match(urls.skip(1), results.skip(1))) by {
            assert forall|i: int|
                0 <= i < results.skip(1).len() implies ((#[trigger] results.skip(1)[i]) matches
            Some(img) ==> img.original_url == urls.skip(1)[i]) by {
                assert(results.skip(1)[i] == results[i + 1]);
                assert(urls.skip(1)[i] == urls[i + 1]);
            }
        }
        if urls[0] == u && spec_needs(m, u) {
            assert(has_entry(m2, u) || skipped(m2, u)) by {
                match results[0] {
                    Some(img) => {
                        assert(img.original_url == u);
                        assert(m2.entries[m.entries.len() as int] == img);
                    },
                    None => {
                        assert(m2.skip[m.skip.len() as int] == u);
                    },
                }
            }
            lemma_settled_no_downloads(m2, urls.skip(1), results.skip(1), u);
        } else {
            lemma_download_once(m2, urls.skip(1), results.skip(1), u);
        }
    }
}

/// A run preserves well-formedness: starting from at most one asset
/// per source URL, every step keeps it so — two icons with one URL
/// can never produce two assets.
pub proof fn lemma_run_preserves_wf(
    m: InternerV,
    urls: Seq<Seq<char>>,
    results: Seq<Option<InternedImageV>>,
)
    requires
        results_match(urls, results),
        interner_wf(m),
    ensures
        interner_wf(spec_run(m, urls, results)),
    decreases urls.len(),
{
    if urls.len() > 0 {
        let m2 = spec_step(m, urls[0], results[0]);
        assert(interner_wf(m2)) by {
            if spec_needs(m, urls[0]) {
                match results[0] {
                    Some(img) => {
                        assert forall|k1: int, k2: int|
                            0 <= k1 < k2 < m2.entries.len() implies (
                        #[trigger] m2.entries[k1]).original_url != (
                        #[trigger] m2.entries[k2]).original_url by {
                            if k2 == m2.entries.len() - 1 {
                                assert(m2.entries[k1] == m.entries[k1]);
                                if m.entries[k1].original_url == urls[0] {
                                    assert(has_entry(m, urls[0]));
                                }
                            }
                        }
                    },
                    None => {},
                }
            }
        }
        assert forall|i: int|
            0 <= i < results.skip(1).len() implies ((#[trigger] results.skip(1)[i]) matches Some(
            img,
        ) ==> img.original_url == urls.skip(1)[i]) by {
            assert(results.skip(1)[i] == results[i + 1]);
            assert(urls.skip(1)[i] == urls[i + 1]);
        }
        lemma_run_preserves_wf(m2, urls.skip(1), results.skip(1));
    }
}

/// An interned asset is never dropped by later steps of the run: a
/// failure on one URL leaves every other entry in place.
pub proof fn lemma_entry_persists(
    m: InternerV,
    urls: Seq<Seq<char>>,
    results: Seq<Option<InternedImageV>>,
    u: Seq<char>,
)
    requires
        urls.len() == results.len(),
        has_entry(m, u),
    ensures
        has_entry(spec_run(m, urls, results), u),
    decreases urls.len(),
{
    if urls.len() > 0 {
        let m2 = spec_step(m, urls[0], results[0]);
        let k = choose|k: int|
            0 <= k < m.entries.len() && (#[trigger] m.entries[k]).original_url == u;
        assert(0 <= k < m2.entries.len() && m2.entries[k].original_url == u);
        lemma_entry_persists(m2, urls.skip(1), results.skip(1), u);
    }
}

/// Failure isolation: a URL whose every fetch fails is never interned
/// by the run — its original remote URL is what the output will carry
/// — while the rest of the run proceeds.
pub proof fn lemma_failure_isolated(
    m: InternerV,
    urls: Seq<Seq<char>>,
    results: Seq<Option<InternedImageV>>,
    u: Seq<char>,
)
    requires
        results_match(urls, results),
        !has_entry(m, u),
        forall|i: int| 0 <= i < urls.len() && #[trigger] urls[i] == u ==> results[i] is None,
    ensures
        !has_entry(spec_run(m, urls, results), u),
    decreases urls.len(),
{
    if urls.len() > 0 {
        let m2 = spec_step(m, urls[0], results[0]);
        assert(!has_entry(m2, u)) by {
            if has_entry(m2, u) {
                let k = choose|k: int|
                    0 <= k < m2.entries.len() && (#[trigger] m2.entries[k]).original_url == u;
                if k < m.entries.len() {
                    assert(m.entries[k] == m2.entries[k]);
                } else {
                    assert(urls[0] == u);
                }
            }
        }
        assert forall|i: int|
            0 <= i < urls.skip(1).len() && #[trigger] urls.skip(1)[i] == u implies results.skip(
            1,
        )[i] is None by {
            assert(urls.skip(1)[i] == urls[i + 1]);
            assert(results.skip(1)[i] == results[i + 1]);
        }
        lemma_failure_isolated(m2, urls.skip(1), results.skip(1), u);
    }
}

impl Interner {
    /// An empty run: nothing interned, nothing failed.
    pub fn new() -> (r: Interner)
        ensures
            r@.entries == Seq::<InternedImageV>::empty(),
            r@.skip == Seq::<Seq<char>>::empty(),
            interner_wf(r@),
    {
        let r = Interner { entries: Vec::new(), skip: Vec::new() };
        proof {
            assert(r@.entries =~= Seq::<InternedImageV>::empty());
            assert(r@.skip =~= Seq::<Seq<char>>::empty());
        }
        r
    }

    /// Whether the run is well formed: at most one asset per source
    /// URL.  Every method here preserves this; the check lets an
    /// unverified caller confirm it before relying on it.
    pub fn check_wf(&self) -> (r: bool)
        ensures
            r == interner_wf(self@),
    {
        let n = self.entries.len();
        let mut k1: usize = 0;
        while k1 < n
            invariant
                k1 <= n,
                n == self.entries@.len(),
                self@.entries.len() == n,
                forall|m: int| 0 <= m < n ==> self@.entries[m] == self.entries@[m]@,
                forall|m1: int, m2: int|
                    0 <= m1 < m2 < n && m1 < k1 ==> (
                    #[trigger] self@.entries[m1]).original_url != (
                    #[trigger] self@.entries[m2]).original_url,
            decreases n - k1,
        {
            let mut k2 = k1 + 1;
            while k2 < n
                invariant
                    k1 < k2 <= n || (k1 + 1 == k2 && k2 <= n),
                    k1 < n,
                    n == self.entries@.len(),
                    self@.entries.len() == n,
                    forall|m: int| 0 <= m < n ==> self@.entries[m] == self.entries@[m]@,
                    forall|m2: int|
                        k1 < m2 < k2 ==> self@.entries[k1 as int].original_url != (
                        #[trigger] self@.entries[m2]).original_url,
                decreases n - k2,
            {
                if self.entries[k1].original_url == self.entries[k2].original_url {
                    proof {
                        assert(self@.entries[k1 as int].original_url
                            == self@.entries[k2 as int].original_url);
                    }
                    return false;
                }
                k2 = k2 + 1;
            }
            proof {
                assert forall|m1: int, m2: int|
                    0 <= m1 < m2 < n && m1 < k1 + 1 implies (
                #[trigger] self@.entries[m1]).original_url != (
                #[trigger] self@.entries[m2]).original_url by {}
            }
            k1 = k1 + 1;
        }
        true
    }

    /// Whether this source URL still needs fetching.
    pub fn needs(&self, url: &String) -> (r: bool)
        ensures
            r == spec_needs(self@, url@),
    {
        let mut k: usize = 0;
        let n = self.entries.len();
        while k < n
            invariant
                k <= n,
                n == self.entries@.len(),
                self@.entries.len() == n,
                forall|m: int| 0 <= m < n ==> self@.entries[m] == self.entries@[m]@,
                forall|m: int| 0 <= m < k ==> (#[trigger] self@.entries[m]).original_url
                    != url@,
            decreases n - k,
        {
            if self.entries[k].original_url == *url {
                proof {
                    assert(self@.entries[k as int].original_url == url@);
                }
                return false;
            }
            k = k + 1;
        }
        let sn = self.skip.len();
        let mut j: usize = 0;
        while j < sn
            invariant
                j <= sn,
                sn == self.skip@.len(),
                self@.skip.len() == sn,
                forall|m: int| 0 <= m < sn ==> self@.skip[m] == self.skip@[m]@,
                forall|m: int| 0 <= m < j ==> (#[trigger] self@.skip[m]) != url@,
                !has_entry(self@, url@),
            decreases sn - j,
        {
            if self.skip[j] == *url {
                proof {
                    assert(self@.skip[j as int] == url@);
                }
                return false;
            }
            j = j + 1;
        }
        true
    }

    /// Records a freshly fetched and converted image.
    pub fn insert(&mut self, img: InternedImage)
        requires
            interner_wf(old(self)@),
            spec_needs(old(self)@, img@.original_url),
        ensures
            interner_wf(final(self)@),
            final(self)@ == spec_step(old(self)@, img@.original_url, Some(img@)),
    {
        let ghost prev = self@;
        let ghost imgv = img@;
        self.entries.push(img);
        proof {
            assert(self@.entries =~= prev.entries.push(imgv));
            assert(self@.skip =~= prev.skip);
            assert forall|k1: int, k2: int|
                0 <= k1 < k2 < self@.entries.len() implies (
            #[trigger] self@.entries[k1]).original_url != (
            #[trigger] self@.entries[k2]).original_url by {
                if k2 == self@.entries.len() - 1 {
                    assert(self@.entries[k1] == prev.entries[k1]);
                    assert(!has_entry(prev, imgv.original_url));
                }
            }
        }
    }

    /// Marks a URL failed for the rest of the run.  What was interned
    /// before is untouched: one broken image never aborts assembly.
    pub fn mark_skip(&mut self, url: String)
        requires
            interner_wf(old(self)@),
            spec_needs(old(self)@, url@),
        ensures
            interner_wf(final(self)@),
            final(self)@ == spec_step(old(self)@, url@, None),
    {
        let ghost prev = self@;
        let ghost urlv = url@;
        self.skip.push(url);
        proof {
            assert(self@.skip =~= prev.skip.push(urlv));
            assert(self@.entries =~= prev.entries);
        }
    }

    /// Rewrites a source URL to the interned asset's name; a URL that
    /// was not interned — unknown or failed — is left exactly as it
    /// was.  In a well-formed run there is at most one asset per URL,
    /// so two icons with one source URL rewrite to one name.
    pub fn rewrite_url(&self, url: &String) -> (r: String)
        requires
            interner_wf(self@),
        ensures
            !has_entry(self@, url@) ==> r@ == url@,
            forall|k: int|
                0 <= k < self@.entries.len() && (#[trigger] self@.entries[k]).original_url
                    == url@ ==> r@ == spec_name(self@.entries[k]),
    {
        let n = self.entries.len();
        let mut k: usize = 0;
        while k < n
            invariant
                k <= n,
                n == self.entries@.len(),
                self@.entries.len() == n,
                interner_wf(self@),
                forall|m: int| 0 <= m < n ==> self@.entries[m] == self.entries@[m]@,
                forall|m: int| 0 <= m < k ==> (#[trigger] self@.entries[m]).original_url
                    != url@,
            decreases n - k,
        {
            if self.entries[k].original_url == *url {
                let r = self.entries[k].name();
                proof {
                    assert(self@.entries[k as int].original_url == url@);
                    assert forall|m: int|
                        0 <= m < self@.entries.len() && (
                        #[trigger] self@.entries[m]).original_url == url@ implies r@
                        == spec_name(self@.entries[m]) by {
                        if m != k as int {
                            if m < k as int {
                                assert(self@.entries[m].original_url != url@);
                            } else {
                                assert(self@.entries[k as int].original_url
                                    == self@.entries[m].original_url);
                            }
                            assert(false);
                        }
                    }
                }
                return r;
            }
            k = k + 1;
        }
        url.clone()
    }
}

} // verus!
