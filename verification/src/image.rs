//! Image files: the formats the agent accepts, the token cost of an encoded
//! image, and the checks and encoding done once a file has been read.

use vstd::prelude::*;
use crate::text::{chars_of, string_from, lowercase, to_lowercase};
use crate::read::{extension, path_extension, base64_encode, base64_standard};

verus! {

/// Most tokens an image may cost.
pub const MAX_IMAGE_TOKENS: u64 = 25000;

/// How images are shrunk before they are sent.
#[derive(Debug, Clone, Copy, PartialEq, Eq, Structural)]
pub struct ImageCompressionConfig {
    pub max_width: u32,
    pub max_height: u32,
    pub quality: u8,
}

/// The compression settings: at most 400 by 400 pixels, quality 20.
pub fn image_compression_config() -> (r: ImageCompressionConfig)
    ensures
        r == (ImageCompressionConfig { max_width: 400, max_height: 400, quality: 20 }),
{
    ImageCompressionConfig { max_width: 400, max_height: 400, quality: 20 }
}

/// The size of an image, before and after it is shrunk.
#[derive(Debug, Clone, Copy, PartialEq, Eq, Structural)]
pub struct ImageDimensions {
    pub original_width: Option<u32>,
    pub original_height: Option<u32>,
    pub display_width: Option<u32>,
    pub display_height: Option<u32>,
}

impl ImageDimensions {
    /// No size known.
    pub fn unknown() -> (r: Self)
        ensures
            r.original_width is None && r.original_height is None && r.display_width is None && r.display_height is None,
    {
        ImageDimensions { original_width: None, original_height: None, display_width: None, display_height: None }
    }
}

/// An image ready to send: its content in base64, its MIME type and size.
#[derive(Debug, Clone)]
pub struct ImageResult {
    pub base64: String,
    pub mime_type: String,
    pub original_size: u64,
    pub dimensions: Option<ImageDimensions>,
}

/// The formats accepted.
pub open spec fn supported_formats() -> Seq<Seq<char>> {
    seq!["png"@, "jpg"@, "jpeg"@, "gif"@, "webp"@]
}

/// `s` without any `c`.
pub open spec fn without_char(s: Seq<char>, c: char) -> Seq<char>
    decreases s.len(),
{
    if s.len() == 0 {
        s
    } else if s.last() == c {
        without_char(s.drop_last(), c)
    } else {
        without_char(s.drop_last(), c).push(s.last())
    }
}

/// Whether an extension names an accepted format, in any case and with or
/// without dots.
pub open spec fn is_supported_ext(ext: Seq<char>) -> bool {
    supported_formats().contains(without_char(lowercase(ext), '.'))
}

fn remove_char(v: &[char], c: char) -> (r: Vec<char>)
    ensures
        r@ == without_char(v@, c),
{
    let mut r: Vec<char> = Vec::new();
    let mut i: usize = 0;
    while i < v.len()
        invariant
            i <= v@.len(),
            r@ == without_char(v@.take(i as int), c),
        decreases v@.len() - i,
    {
        proof {
            assert(v@.take(i + 1).drop_last() =~= v@.take(i as int));
        }
        if v[i] != c {
            r.push(v[i]);
        }
        i = i + 1;
    }
    proof {
        assert(v@.take(v@.len() as int) =~= v@);
    }
    r
}

/// Whether an extension names an accepted format.
pub fn is_supported_image_format(ext: &str) -> (r: bool)
    ensures
        r == is_supported_ext(ext@),
{
    let lower = to_lowercase(ext);
    let stripped = remove_char(chars_of(lower.as_str()).as_slice(), '.');
    let list: [&str; 5] = ["png", "jpg", "jpeg", "gif", "webp"];
    proof {
        assert(list@.map_values(|s: &str| s@) =~= supported_formats());
    }
    let s = string_from(stripped.as_slice());
    let ghost vs = list@.map_values(|s: &str| s@);
    let mut i: usize = 0;
    while i < 5
        invariant
            i <= 5,
            vs == list@.map_values(|s: &str| s@),
            vs == supported_formats(),
            s@ == without_char(lowercase(ext@), '.'),
            forall|j: int| 0 <= j < i ==> vs[j] != s@,
        decreases 5 - i,
    {
        if crate::text::str_eq(list[i], s.as_str()) {
            proof {
                assert(vs[i as int] == s@);
            }
            return true;
        }
        i = i + 1;
    }
    false
}

/// The tokens an image costs: an eighth of its base64 text's length in bytes,
/// rounded up (computed exactly, in integers).
pub fn estimate_image_tokens(base64: &str) -> (r: u64)
    ensures
        r as int == (base64.len() + 7) / 8,
{
    let len = base64.len();
    let n = len as u64;
    assert((n + 7) / 8 == n / 8 + if n % 8 == 0 { 0int } else { 1int }) by (nonlinear_arith);
    n / 8 + if n % 8 == 0 { 0 } else { 1 }
}

/// The MIME type of an image when sniffing its content told nothing:
/// `image/` and its lowercased extension (`png` when it has none).
pub open spec fn fallback_mime(path: Seq<char>) -> Seq<char> {
    "image/"@ + match extension(path) {
        Some(e) => lowercase(e),
        None => "png"@,
    }
}

/// An image read from `path`, of `size` bytes: refused when empty; else its
/// content in base64 and its MIME type (the sniffed one, else by extension).
pub fn build_image_result(path: &str, content: &[u8], size: u64, sniffed_mime: Option<&str>) -> (r: Result<ImageResult, String>)
    ensures
        size == 0 ==> (r matches Err(m) && m@ == "Image file is empty: "@ + path@),
        size != 0 ==> (r matches Ok(img) && img.base64@ == base64_standard(content@) && img.original_size == size
            && img.dimensions is None && img.mime_type@ == match sniffed_mime {
                Some(m) => m@,
                None => fallback_mime(path@),
            }),
{
    if size == 0 {
        let mut m = String::from_str("Image file is empty: ");
        m.append(path);
        return Err(m);
    }
    let mime = match sniffed_mime {
        Some(m) => String::from_str(m),
        None => {
            let ext = match path_extension(path) {
                Some(e) => to_lowercase(e.as_str()),
                None => String::from_str("png"),
            };
            let mut m = String::from_str("image/");
            m.append(ext.as_str());
            m
        },
    };
    Ok(ImageResult { base64: base64_encode(content), mime_type: mime, original_size: size, dimensions: None })
}

/// Checks an image file from what is known of it: refused when it does not
/// exist, is empty, or its extension is not an accepted format.  The message
/// of the last refusal goes on to list the accepted formats; the contract does
/// not fix their order, which is a hash set's order.
pub fn validate_image_file(path: &str, exists: bool, size: u64) -> (r: Result<(), String>)
    ensures
        !exists ==> (r matches Err(m) && m@ == "File does not exist"@),
        exists && size == 0 ==> (r matches Err(m) && m@ == "Image file is empty"@),
        exists && size != 0 ==> {
            let ext = match extension(path@) {
                Some(e) => e,
                None => Seq::empty(),
            };
            &&& is_supported_ext(ext) ==> r is Ok
            &&& !is_supported_ext(ext) ==> (r matches Err(m) && m@.len() >= 26 + ext.len()
                && m@.take(26 + ext.len() as int) == "Unsupported image format: "@ + ext)
        },
{
    if !exists {
        return Err(String::from_str("File does not exist"));
    }
    if size == 0 {
        return Err(String::from_str("Image file is empty"));
    }
    let ext = match path_extension(path) {
        Some(e) => e,
        None => String::new(),
    };
    if is_supported_image_format(ext.as_str()) {
        Ok(())
    } else {
        let mut m = String::from_str("Unsupported image format: ");
        m.append(ext.as_str());
        let ghost head = m@;
        m.append(". Supported: [\"png\", \"jpg\", \"jpeg\", \"gif\", \"webp\"]");
        proof {
            reveal_strlit("Unsupported image format: ");
            assert(m@.take(26 + ext@.len() as int) =~= head);
        }
        Err(m)
    }
}

} // verus!
