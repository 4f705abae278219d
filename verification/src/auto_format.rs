//! Automatic choice of the output format: the candidates, the smallest
//! encoding, and the content-addressed name of the chosen file.
use vstd::prelude::*;
use sha2::Digest;
use crate::text::{chars_of, push_char};
use crate::format::{ImageFormat, format_extensions};

verus! {

/// What the automatic choice knows of a format.
#[derive(Clone, Copy, Debug, PartialEq, Eq, Structural)]
pub struct FormatInfo {
    pub format: ImageFormat,
    pub supports_transparency: bool,
    pub is_lossless: bool,
    pub is_modern: bool,
}

/// The formats tried by the automatic choice, in order: AVIF, WebP, JPEG, PNG.
pub open spec fn auto_formats() -> Seq<FormatInfo> {
    seq![
        FormatInfo { format: ImageFormat::Avif, supports_transparency: true, is_lossless: true, is_modern: true },
        FormatInfo { format: ImageFormat::WebP, supports_transparency: true, is_lossless: false, is_modern: true },
        FormatInfo { format: ImageFormat::Jpeg, supports_transparency: false, is_lossless: false, is_modern: false },
        FormatInfo { format: ImageFormat::Png, supports_transparency: true, is_lossless: true, is_modern: false },
    ]
}

/// The formats tried by the automatic choice.
pub fn default_auto_formats() -> (v: Vec<FormatInfo>)
    ensures
        v@ == auto_formats(),
{
    let v = vec![
        FormatInfo {
            format: ImageFormat::Avif,
            supports_transparency: true,
            is_lossless: true,
            is_modern: true,
        },
        FormatInfo {
            format: ImageFormat::WebP,
            supports_transparency: true,
            is_lossless: false,
            is_modern: true,
        },
        FormatInfo {
            format: ImageFormat::Jpeg,
            supports_transparency: false,
            is_lossless: false,
            is_modern: false,
        },
        FormatInfo {
            format: ImageFormat::Png,
            supports_transparency: true,
            is_lossless: true,
            is_modern: false,
        },
    ];
    assert(v@ =~= auto_formats());
    v
}

/// Whether a format is tried for an image with or without alpha: the modern
/// formats always; of the others, the one whose transparency support matches
/// the image (PNG with alpha, JPEG without).
pub open spec fn tried_for(f: FormatInfo, has_alpha: bool) -> bool {
    f.is_modern || f.supports_transparency == has_alpha
}

/// The candidate formats for an image: WebP, AVIF, and JPEG or PNG depending on
/// whether the image has alpha; in the order of `auto_formats`.
pub open spec fn spec_candidates(has_alpha: bool) -> Seq<ImageFormat> {
    if has_alpha {
        seq![ImageFormat::Avif, ImageFormat::WebP, ImageFormat::Png]
    } else {
        seq![ImageFormat::Avif, ImageFormat::WebP, ImageFormat::Jpeg]
    }
}

/// The formats to try for an image with or without alpha.
pub fn auto_format_candidates(has_alpha: bool) -> (v: Vec<ImageFormat>)
    ensures
        v@ == spec_candidates(has_alpha),
{
    let all = default_auto_formats();
    let mut v: Vec<ImageFormat> = Vec::new();
    let mut i: usize = 0;
    while i < all.len()
        invariant
            all@ == auto_formats(),
            i <= all@.len(),
            v@ == auto_formats().take(i as int).filter(
                |f: FormatInfo| tried_for(f, has_alpha),
            ).map_values(|f: FormatInfo| f.format),
        decreases all@.len() - i,
    {
        let ghost pred = |f: FormatInfo| tried_for(f, has_alpha);
        reveal_with_fuel(Seq::filter, 1);
        assert(auto_formats().take(i + 1).drop_last() =~= auto_formats().take(i as int));
        if all[i].is_modern || all[i].supports_transparency == has_alpha {
            v.push(all[i].format);
        }
        i = i + 1;
        assert(v@ =~= auto_formats().take(i as int).filter(pred).map_values(
            |f: FormatInfo| f.format,
        ));
    }
    proof {
        assert(auto_formats().take(4) =~= auto_formats());
        reveal_with_fuel(Seq::filter, 5);
    }
    assert(v@ =~= spec_candidates(has_alpha));
    v
}

/// `i` is the first position of a shortest encoding.
pub open spec fn first_shortest(s: Seq<(Vec<u8>, ImageFormat)>, i: int) -> bool {
    &&& 0 <= i < s.len()
    &&& forall|j: int| 0 <= j < s.len() ==> s[i].0@.len() <= (#[trigger] s[j].0@).len()
    &&& forall|j: int| 0 <= j < i ==> s[i].0@.len() < (#[trigger] s[j].0@).len()
}

/// The shortest of the encodings and its format; the first one among equals;
/// nothing when there is none.
pub fn find_smallest_encoded(encoded: Vec<(Vec<u8>, ImageFormat)>) -> (r: (
    Option<Vec<u8>>,
    Option<ImageFormat>,
))
    ensures
        encoded@.len() == 0 ==> r.0 is None && r.1 is None,
        encoded@.len() > 0 ==> exists|i: int|
            first_shortest(encoded@, i) && r.0 == Some(encoded@[i].0) && r.1 == Some(
                encoded@[i].1,
            ),
{
    let n = encoded.len();
    if n == 0 {
        return (None, None);
    }
    let mut best: usize = 0;
    let mut i: usize = 1;
    while i < n
        invariant
            n == encoded@.len(),
            1 <= i <= n,
            best < i,
            forall|j: int| 0 <= j < i ==> encoded@[best as int].0@.len() <= (
            #[trigger] encoded@[j].0@).len(),
            forall|j: int| 0 <= j < best ==> encoded@[best as int].0@.len() < (
            #[trigger] encoded@[j].0@).len(),
        decreases n - i,
    {
        if encoded[i].0.len() < encoded[best].0.len() {
            best = i;
        }
        i = i + 1;
    }
    let ghost given = encoded@;
    let mut encoded = encoded;
    let (bytes, format) = encoded.remove(best);
    assert(first_shortest(given, best as int));
    (Some(bytes), Some(format))
}

/// The SHA-256 digest of some bytes.
pub uninterp spec fn sha256(data: Seq<u8>) -> Seq<u8>;

/// The SHA-256 digest of `data` (`sha2::Sha256::digest`): 32 bytes, which the
/// contract names without restating the hash function.
#[verifier::external_body]
fn sha256_digest(data: &[u8]) -> (r: Vec<u8>)
    ensures
        r@ == sha256(data@),
        r@.len() == 32,
{
    sha2::Sha256::digest(data).to_vec()
}

/// A lower-case hex digit.
pub open spec fn hex_char(n: u8) -> char {
    if n < 10 {
        ((n + 48) as u8) as char
    } else {
        ((n + 87) as u8) as char
    }
}

/// Bytes in lower-case hex, two digits each.
pub open spec fn hex_text(s: Seq<u8>) -> Seq<char>
    decreases s.len(),
{
    if s.len() == 0 {
        Seq::empty()
    } else {
        hex_text(s.drop_last()).push(hex_char(s.last() / 16)).push(hex_char(s.last() % 16))
    }
}

fn hex_digit_char(n: u8) -> (c: char)
    requires
        n < 16,
    ensures
        c == hex_char(n),
{
    if n < 10 {
        (n + 48) as char
    } else {
        (n + 87) as char
    }
}

/// Bytes in lower-case hex.
pub fn hex_lower(bytes: &[u8]) -> (s: String)
    ensures
        s@ == hex_text(bytes@),
{
    let mut s = String::new();
    let mut i: usize = 0;
    while i < bytes.len()
        invariant
            i <= bytes@.len(),
            s@ == hex_text(bytes@.take(i as int)),
        decreases bytes@.len() - i,
    {
        assert(bytes@.take(i + 1).drop_last() =~= bytes@.take(i as int));
        let b = bytes[i];
        push_char(&mut s, hex_digit_char(b / 16));
        push_char(&mut s, hex_digit_char(b % 16));
        i = i + 1;
    }
    assert(bytes@.take(i as int) =~= bytes@);
    s
}

/// The SHA-256 digest of `bytes` in lower-case hex.
pub fn checksum_hex(bytes: &[u8]) -> (s: String)
    ensures
        s@ == hex_text(sha256(bytes@)),
{
    let digest = sha256_digest(bytes);
    hex_lower(digest.as_slice())
}

/// The name of an automatically encoded file: its checksum, a dot, and the
/// usual extension of its format (`img` for a format without one).
pub open spec fn auto_file_name(checksum: Seq<char>, format: ImageFormat) -> Seq<char> {
    checksum + "."@ + (if format_extensions(format).len() > 0 {
        format_extensions(format)[0]
    } else {
        "img"@
    })
}

/// The name of an automatically encoded file.
pub fn auto_output_file_name(checksum: &str, format: ImageFormat) -> (s: String)
    ensures
        s@ == auto_file_name(checksum@, format),
{
    let exts = format.extensions_str();
    let ext = if exts.len() > 0 {
        exts[0]
    } else {
        "img"
    };
    String::from_str(checksum).concat(".").concat(ext)
}

/// The directory part of a path as `std::path::Path::parent` gives it.
pub uninterp spec fn path_parent_of(path: Seq<char>) -> Option<Seq<char>>;

/// `std::path::Path::parent`, as text: the path without its last component,
/// `None` for a root or an empty path. What that is of a given path is left to
/// std's path rules, which the contract names without restating.
#[verifier::external_body]
fn path_parent(path: &str) -> (r: Option<String>)
    ensures
        match r {
            Some(p) => path_parent_of(path@) == Some(p@),
            None => path_parent_of(path@) is None,
        },
{
    match std::path::Path::new(path).parent() {
        Some(p) => Some(p.to_string_lossy().into_owned()),
        None => None,
    }
}

/// A path with a name appended, as `std::path::Path::join` gives it.
pub uninterp spec fn path_join_of(base: Seq<char>, name: Seq<char>) -> Seq<char>;

/// `std::path::Path::join`, as text: `name` appended to `base` with a separator
/// where one is needed. The contract names the result without restating std's
/// rules.
#[verifier::external_body]
fn path_join(base: &str, name: &str) -> (r: String)
    ensures
        r@ == path_join_of(base@, name@),
{
    std::path::Path::new(base).join(name).to_string_lossy().into_owned()
}

/// The directory an automatically encoded file goes to: the output itself when
/// it ends with the separator or is a directory, else its parent (or the
/// current directory, written empty).
pub open spec fn auto_output_dir(output: Seq<char>, is_dir: bool, separator: char) -> Seq<char> {
    if (output.len() > 0 && output.last() == separator) || is_dir {
        output
    } else {
        match path_parent_of(output) {
            Some(p) => p,
            None => Seq::empty(),
        }
    }
}

/// Where an automatically encoded file goes, for the output path `output`
/// (`is_dir` tells whether it names an existing directory, `separator` is the
/// platform's path separator): the checksum file name in the output directory.
pub fn auto_output_path(
    output: &str,
    is_dir: bool,
    separator: char,
    checksum: &str,
    format: ImageFormat,
) -> (r: String)
    ensures
        r@ == path_join_of(auto_output_dir(output@, is_dir, separator), auto_file_name(checksum@, format)),
{
    let cs = chars_of(output);
    let ends_with_separator = cs.len() > 0 && cs[cs.len() - 1] == separator;
    let dir = if ends_with_separator || is_dir {
        String::from_str(output)
    } else {
        match path_parent(output) {
            Some(p) => p,
            None => String::new(),
        }
    };
    let name = auto_output_file_name(checksum, format);
    path_join(dir.as_str(), name.as_str())
}

} // verus!
