//! Image format modelling and small shared helpers: the set of image
//! formats the pipeline handles, content sniffing by byte signature,
//! and the stable URL hash that keys inline images.

use vstd::prelude::*;

use sha2::Digest;

use crate::textfmt::{hex_digit, push_hex_digit};
use crate::types::{Icon, IconV, Reply, ReplyV, Thread};

verus! {

/// The image formats the pipeline handles.  A MIME type outside this
/// set is not an image the pipeline can carry.
#[derive(Debug, Clone, Copy, PartialEq, Eq, Structural)]
pub enum ImageMime {
    Bmp,
    Gif,
    Jpeg,
    Png,
    Svg,
    Webp,
}

pub open spec fn spec_mime_str(m: ImageMime) -> Seq<char> {
    match m {
        ImageMime::Bmp => "image/bmp"@,
        ImageMime::Gif => "image/gif"@,
        ImageMime::Jpeg => "image/jpeg"@,
        ImageMime::Png => "image/png"@,
        ImageMime::Svg => "image/svg+xml"@,
        ImageMime::Webp => "image/webp"@,
    }
}

pub open spec fn spec_extension(m: ImageMime) -> Seq<char> {
    match m {
        ImageMime::Bmp => "bmp"@,
        ImageMime::Gif => "gif"@,
        ImageMime::Jpeg => "jpeg"@,
        ImageMime::Png => "png"@,
        ImageMime::Svg => "svg"@,
        ImageMime::Webp => "webp"@,
    }
}

impl ImageMime {
    /// The MIME type's canonical text.
    pub fn mime_str(&self) -> (r: String)
        ensures
            r@ == spec_mime_str(*self),
    {
        match self {
            ImageMime::Bmp => String::from_str("image/bmp"),
            ImageMime::Gif => String::from_str("image/gif"),
            ImageMime::Jpeg => String::from_str("image/jpeg"),
            ImageMime::Png => String::from_str("image/png"),
            ImageMime::Svg => String::from_str("image/svg+xml"),
            ImageMime::Webp => String::from_str("image/webp"),
        }
    }
}

/// The file extension under which an image of this format is cached.
pub fn mime_to_image_extension(mime: &ImageMime) -> (r: String)
    ensures
        r@ == spec_extension(*mime),
{
    match mime {
        ImageMime::Bmp => String::from_str("bmp"),
        ImageMime::Gif => String::from_str("gif"),
        ImageMime::Jpeg => String::from_str("jpeg"),
        ImageMime::Png => String::from_str("png"),
        ImageMime::Svg => String::from_str("svg"),
        ImageMime::Webp => String::from_str("webp"),
    }
}

pub open spec fn spec_ext_to_mime(e: Seq<char>) -> Option<ImageMime> {
    if e == "bmp"@ {
        Some(ImageMime::Bmp)
    } else if e == "gif"@ {
        Some(ImageMime::Gif)
    } else if e == "jpg"@ || e == "jpeg"@ {
        Some(ImageMime::Jpeg)
    } else if e == "png"@ {
        Some(ImageMime::Png)
    } else if e == "svg"@ {
        Some(ImageMime::Svg)
    } else if e == "webp"@ {
        Some(ImageMime::Webp)
    } else {
        None
    }
}

/// The image format a cached file's extension stands for.
pub fn extension_to_image_mime(extension: &str) -> (r: Option<ImageMime>)
    ensures
        r == spec_ext_to_mime(extension@),
{
    let e = String::from_str(extension);
    if e == String::from_str("bmp") {
        Some(ImageMime::Bmp)
    } else if e == String::from_str("gif") {
        Some(ImageMime::Gif)
    } else if e == String::from_str("jpg") || e == String::from_str("jpeg") {
        Some(ImageMime::Jpeg)
    } else if e == String::from_str("png") {
        Some(ImageMime::Png)
    } else if e == String::from_str("svg") {
        Some(ImageMime::Svg)
    } else if e == String::from_str("webp") {
        Some(ImageMime::Webp)
    } else {
        None
    }
}

/// Content sniffing: the true image format of a byte string, read off
/// its magic signature rather than trusted from a server's headers.
pub open spec fn spec_sniff(d: Seq<u8>) -> Option<ImageMime> {
    if d.len() >= 8 && d[0] == 0x89 && d[1] == 0x50 && d[2] == 0x4e && d[3] == 0x47 && d[4]
        == 0x0d && d[5] == 0x0a && d[6] == 0x1a && d[7] == 0x0a {
        Some(ImageMime::Png)
    } else if d.len() >= 3 && d[0] == 0xff && d[1] == 0xd8 && d[2] == 0xff {
        Some(ImageMime::Jpeg)
    } else if d.len() >= 4 && d[0] == 0x47 && d[1] == 0x49 && d[2] == 0x46 && d[3] == 0x38 {
        Some(ImageMime::Gif)
    } else if d.len() >= 12 && d[0] == 0x52 && d[1] == 0x49 && d[2] == 0x46 && d[3] == 0x46 && d[8]
        == 0x57 && d[9] == 0x45 && d[10] == 0x42 && d[11] == 0x50 {
        Some(ImageMime::Webp)
    } else if d.len() >= 2 && d[0] == 0x42 && d[1] == 0x4d {
        Some(ImageMime::Bmp)
    } else {
        None
    }
}

/// Guesses an image's format from its byte signature: PNG, JPEG, GIF,
/// WEBP (RIFF container) and BMP are recognised; anything else,
/// including SVG markup, is not.
pub fn guess_image_mime(data: &Vec<u8>) -> (r: Option<ImageMime>)
    ensures
        r == spec_sniff(data@),
{
    let n = data.len();
    if n >= 8 && data[0] == 0x89 && data[1] == 0x50 && data[2] == 0x4e && data[3] == 0x47
        && data[4] == 0x0d && data[5] == 0x0a && data[6] == 0x1a && data[7] == 0x0a {
        Some(ImageMime::Png)
    } else if n >= 3 && data[0] == 0xff && data[1] == 0xd8 && data[2] == 0xff {
        Some(ImageMime::Jpeg)
    } else if n >= 4 && data[0] == 0x47 && data[1] == 0x49 && data[2] == 0x46 && data[3] == 0x38 {
        Some(ImageMime::Gif)
    } else if n >= 12 && data[0] == 0x52 && data[1] == 0x49 && data[2] == 0x46 && data[3] == 0x46
        && data[8] == 0x57 && data[9] == 0x45 && data[10] == 0x42 && data[11] == 0x50 {
        Some(ImageMime::Webp)
    } else if n >= 2 && data[0] == 0x42 && data[1] == 0x4d {
        Some(ImageMime::Bmp)
    } else {
        None
    }
}

// ---------------------------------------------------------------------
// The URL hash.

/// What SHA-256 returns for a byte string.  The digest depends on the
/// input alone; its definition is the hash function's, not ours.
pub uninterp spec fn sha256_of(data: Seq<u8>) -> Seq<u8>;

/// What UTF-8 encoding turns a character sequence into.  The bytes
/// depend on the characters alone.
pub uninterp spec fn str_bytes_of(s: Seq<char>) -> Seq<u8>;

/// Relies on sha2's Sha256: a 32-byte digest of the input bytes.
#[verifier::external_body]
fn sha256_digest(data: &Vec<u8>) -> (r: Vec<u8>)
    ensures
        r@ == sha256_of(data@),
        r@.len() == 32,
{
    sha2::Sha256::digest(data).to_vec()
}

/// Relies on str::as_bytes: the UTF-8 encoding of the characters.
#[verifier::external_body]
fn str_bytes(s: &str) -> (r: Vec<u8>)
    ensures
        r@ == str_bytes_of(s@),
{
    s.as_bytes().to_vec()
}

/// The big-endian value of a byte string, folded with shifts.
pub open spec fn be_val(d: Seq<u8>) -> u128
    decreases d.len(),
{
    if d.len() == 0 {
        0u128
    } else {
        (be_val(d.drop_last()) << 8) | (d.last() as u128)
    }
}

/// Lowercase hexadecimal without leading zeros, as the standard
/// formatter prints it.
pub open spec fn hex_of(n: nat) -> Seq<char>
    decreases n,
{
    if n < 16 {
        seq![hex_digit(n)]
    } else {
        hex_of(n / 16).push(hex_digit(n % 16))
    }
}

/// The stable hash that keys an inline image: the first 16 bytes of
/// the URL's SHA-256 digest, read big-endian, in lowercase hex.
pub open spec fn spec_url_hash(url: Seq<char>) -> Seq<char> {
    hex_of(be_val(sha256_of(str_bytes_of(url)).take(16)) as nat)
}


fn push_hex(out: &mut String, n: u128)
    ensures
        final(out)@ == old(out)@ + hex_of(n as nat),
    decreases n,
{
    if n >= 16 {
        push_hex(out, n / 16);
        push_hex_digit(out, (n % 16) as u8);
        assert(final(out)@ =~= old(out)@ + hex_of(n as nat));
    } else {
        push_hex_digit(out, n as u8);
        assert(final(out)@ =~= old(out)@ + hex_of(n as nat));
    }
}

/// A stable, collision-resistant rendering of a URL, used as the
/// cache key of inline images.
pub fn url_hash(url: &str) -> (r: String)
    ensures
        r@ == spec_url_hash(url@),
{
    let bytes = str_bytes(url);
    let digest = sha256_digest(&bytes);
    let mut acc: u128 = 0;
    let mut k: usize = 0;
    while k < 16
        invariant
            k <= 16,
            digest@.len() == 32,
            acc == be_val(digest@.take(16).take(k as int)),
        decreases 16 - k,
    {
        let b = digest[k];
        proof {
            let t = digest@.take(16);
            assert(t.take(k + 1).drop_last() =~= t.take(k as int));
            assert(t.take(k + 1).last() == t[k as int]);
            assert(t[k as int] == digest@[k as int]);
        }
        acc = (acc << 8) | (b as u128);
        k = k + 1;
    }
    proof {
        assert(digest@.take(16).take(16) =~= digest@.take(16));
    }
    let mut out = String::new();
    push_hex(&mut out, acc);
    assert(out@ =~= spec_url_hash(url@));
    out
}

// ---------------------------------------------------------------------
// The icons a thread references.

/// A by-hand copy of an icon whose contract states that the copy's
/// model equals the original's.
pub fn clone_icon(i: &Icon) -> (r: Icon)
    ensures
        r@ == i@,
{
    Icon {
        id: i.id,
        keyword: match &i.keyword {
            Some(k) => Some(k.clone()),
            None => None,
        },
        url: match &i.url {
            Some(u) => Some(u.clone()),
            None => None,
        },
    }
}

pub open spec fn opt_icon_seq(o: Option<IconV>) -> Seq<IconV> {
    match o {
        Some(i) => seq![i],
        None => Seq::empty(),
    }
}

/// The icons of a reply sequence, in order.
pub open spec fn icons_of_replies(rs: Seq<ReplyV>) -> Seq<IconV>
    decreases rs.len(),
{
    if rs.len() == 0 {
        Seq::empty()
    } else {
        opt_icon_seq(rs[0].icon) + icons_of_replies(rs.skip(1))
    }
}

/// All icons a thread references: the post's, then each reply's, in
/// reply order.
pub open spec fn spec_thread_icons(t: crate::types::ThreadV) -> Seq<IconV> {
    opt_icon_seq(t.post.icon) + icons_of_replies(t.replies)
}

proof fn lemma_icons_of_replies_snoc(rs: Seq<ReplyV>, i: int)
    requires
        0 <= i < rs.len(),
    ensures
        icons_of_replies(rs.take(i + 1)) == icons_of_replies(rs.take(i)) + opt_icon_seq(
            rs[i].icon,
        ),
    decreases i,
{
    let a = rs.take(i + 1);
    let b = rs.take(i);
    if i == 0 {
        assert(a.skip(1) =~= Seq::<ReplyV>::empty());
        assert(b =~= Seq::<ReplyV>::empty());
        assert(icons_of_replies(a) == opt_icon_seq(a[0].icon) + icons_of_replies(a.skip(1)));
        assert(icons_of_replies(a) =~= icons_of_replies(b) + opt_icon_seq(rs[i].icon));
    } else {
        lemma_icons_of_replies_snoc(rs.skip(1), i - 1);
        assert(a.skip(1) =~= rs.skip(1).take(i));
        assert(b.skip(1) =~= rs.skip(1).take(i - 1));
        assert(a[0] == rs[0] && b[0] == rs[0]);
        assert(rs.skip(1)[i - 1] == rs[i]);
        assert(icons_of_replies(a) == opt_icon_seq(rs[0].icon) + icons_of_replies(
            rs.skip(1).take(i),
        ));
        assert(icons_of_replies(b) == opt_icon_seq(rs[0].icon) + icons_of_replies(
            rs.skip(1).take(i - 1),
        ));
        assert(icons_of_replies(a) =~= icons_of_replies(b) + opt_icon_seq(rs[i].icon));
    }
}

impl Thread {
    /// Every icon the thread references, in document order: the
    /// post's icon first, then each reply's.
    pub fn icons(&self) -> (r: Vec<Icon>)
        ensures
            r@.map_values(|i: Icon| i@) == spec_thread_icons(self@),
    {
        let mut out: Vec<Icon> = Vec::new();
        match &self.post.icon {
            Some(i) => {
                out.push(clone_icon(i));
            },
            None => {},
        }
        proof {
            assert(out@.map_values(|i: Icon| i@) =~= opt_icon_seq(self@.post.icon));
        }
        let n = self.replies.len();
        let mut k: usize = 0;
        while k < n
            invariant
                k <= n,
                n == self.replies@.len(),
                self@.replies.len() == n,
                forall|m: int| 0 <= m < n ==> self@.replies[m] == self.replies@[m]@,
                out@.map_values(|i: Icon| i@) == opt_icon_seq(self@.post.icon)
                    + icons_of_replies(self@.replies.take(k as int)),
            decreases n - k,
        {
            let ghost prev = out@;
            match &self.replies[k].icon {
                Some(i) => {
                    out.push(clone_icon(i));
                    proof {
                        assert(out@.map_values(|i: Icon| i@) =~= prev.map_values(|i: Icon| i@)
                            + opt_icon_seq(self@.replies[k as int].icon));
                    }
                },
                None => {
                    proof {
                        assert(out@.map_values(|i: Icon| i@) =~= prev.map_values(|i: Icon| i@)
                            + opt_icon_seq(self@.replies[k as int].icon));
                    }
                },
            }
            proof {
                lemma_icons_of_replies_snoc(self@.replies, k as int);
                assert(out@.map_values(|i: Icon| i@) =~= opt_icon_seq(self@.post.icon)
                    + icons_of_replies(self@.replies.take(k + 1)));
            }
            k = k + 1;
        }
        proof {
            assert(self@.replies.take(n as int) =~= self@.replies);
        }
        out
    }
}

} // verus!
