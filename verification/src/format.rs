//! Image formats: their file extensions and MIME types, and the output formats
//! that the pipeline accepts.
use vstd::prelude::*;
use crate::text::{ascii_lower_seq, chars_of, lower_all, same_chars};

verus! {

/// The image formats known to the `image` crate.
#[derive(Clone, Copy, Debug, PartialEq, Eq, Structural, Hash)]
pub enum ImageFormat {
    Png,
    Jpeg,
    Gif,
    WebP,
    Pnm,
    Tiff,
    Tga,
    Dds,
    Bmp,
    Ico,
    Hdr,
    OpenExr,
    Farbfeld,
    Avif,
    Qoi,
    Pcx,
}

/// The format that a file extension names, case-insensitively
/// (`image::ImageFormat::from_extension`).
pub open spec fn format_from_extension(ext: Seq<char>) -> Option<ImageFormat> {
    let l = ascii_lower_seq(ext);
    if l == "avif"@ {
        Some(ImageFormat::Avif)
    } else if l == "jpg"@ || l == "jpeg"@ || l == "jfif"@ {
        Some(ImageFormat::Jpeg)
    } else if l == "png"@ || l == "apng"@ {
        Some(ImageFormat::Png)
    } else if l == "gif"@ {
        Some(ImageFormat::Gif)
    } else if l == "webp"@ {
        Some(ImageFormat::WebP)
    } else if l == "tif"@ || l == "tiff"@ {
        Some(ImageFormat::Tiff)
    } else if l == "tga"@ {
        Some(ImageFormat::Tga)
    } else if l == "dds"@ {
        Some(ImageFormat::Dds)
    } else if l == "bmp"@ {
        Some(ImageFormat::Bmp)
    } else if l == "ico"@ {
        Some(ImageFormat::Ico)
    } else if l == "hdr"@ {
        Some(ImageFormat::Hdr)
    } else if l == "exr"@ {
        Some(ImageFormat::OpenExr)
    } else if l == "pbm"@ || l == "pam"@ || l == "ppm"@ || l == "pgm"@ || l == "pnm"@ {
        Some(ImageFormat::Pnm)
    } else if l == "ff"@ {
        Some(ImageFormat::Farbfeld)
    } else if l == "qoi"@ {
        Some(ImageFormat::Qoi)
    } else {
        None
    }
}

/// The file extensions of each format, the usual one first
/// (`image::ImageFormat::extensions_str`).
pub open spec fn format_extensions(f: ImageFormat) -> Seq<Seq<char>> {
    match f {
        ImageFormat::Png => seq!["png"@],
        ImageFormat::Jpeg => seq!["jpg"@, "jpeg"@],
        ImageFormat::Gif => seq!["gif"@],
        ImageFormat::WebP => seq!["webp"@],
        ImageFormat::Pnm => seq!["pbm"@, "pam"@, "ppm"@, "pgm"@, "pnm"@],
        ImageFormat::Tiff => seq!["tiff"@, "tif"@],
        ImageFormat::Tga => seq!["tga"@],
        ImageFormat::Dds => seq!["dds"@],
        ImageFormat::Bmp => seq!["bmp"@],
        ImageFormat::Ico => seq!["ico"@],
        ImageFormat::Hdr => seq!["hdr"@],
        ImageFormat::OpenExr => seq!["exr"@],
        ImageFormat::Farbfeld => seq!["ff"@],
        ImageFormat::Avif => seq!["avif"@],
        ImageFormat::Qoi => seq!["qoi"@],
        ImageFormat::Pcx => seq!["pcx"@],
    }
}

/// The MIME type of each format (`image::ImageFormat::to_mime_type`).
pub open spec fn format_mime_type(f: ImageFormat) -> Seq<char> {
    match f {
        ImageFormat::Avif => "image/avif"@,
        ImageFormat::Jpeg => "image/jpeg"@,
        ImageFormat::Png => "image/png"@,
        ImageFormat::Gif => "image/gif"@,
        ImageFormat::WebP => "image/webp"@,
        ImageFormat::Tiff => "image/tiff"@,
        ImageFormat::Tga => "image/x-targa"@,
        ImageFormat::Dds => "image/vnd-ms.dds"@,
        ImageFormat::Bmp => "image/bmp"@,
        ImageFormat::Ico => "image/x-icon"@,
        ImageFormat::Hdr => "image/vnd.radiance"@,
        ImageFormat::OpenExr => "image/x-exr"@,
        ImageFormat::Pnm => "image/x-portable-anymap"@,
        ImageFormat::Qoi => "image/x-qoi"@,
        ImageFormat::Farbfeld => "application/octet-stream"@,
        ImageFormat::Pcx => "image/vnd.zbrush.pcx"@,
    }
}

/// The extension of the last component of a path, as `std::path::Path::extension`
/// reads it: the text after the final `.` of the file name, when that name does
/// not merely begin with its only `.`.
pub uninterp spec fn path_extension_of(path: Seq<char>) -> Option<Seq<char>>;

/// The extension of `path` (`std::path::Path::extension`, as UTF-8 text).
/// What the extension is of a given path is left to std's path rules, which
/// this contract names without restating.
#[verifier::external_body]
fn path_extension(path: &str) -> (r: Option<String>)
    ensures
        match r {
            Some(e) => path_extension_of(path@) == Some(e@),
            None => path_extension_of(path@) is None,
        },
{
    match std::path::Path::new(path).extension() {
        Some(e) => match e.to_str() {
            Some(text) => Some(text.to_string()),
            None => None,
        },
        None => None,
    }
}

/// The format that the extension of a path names, if any.
pub open spec fn inferred_format(path: Seq<char>) -> Option<ImageFormat> {
    match path_extension_of(path) {
        Some(e) => format_from_extension(e),
        None => None,
    }
}

/// The format that the extension of `path` names, if any.
pub fn infer_format_from_path(path: &str) -> (r: Option<ImageFormat>)
    ensures
        r == inferred_format(path@),
{
    match path_extension(path) {
        Some(e) => ImageFormat::from_extension(e.as_str()),
        None => None,
    }
}

/// `l` spells `w`.
pub(crate) fn is_word(l: &Vec<char>, w: &str) -> (b: bool)
    ensures
        b == (l@ == w@),
{
    let wc = chars_of(w);
    let r = same_chars(l.as_slice(), wc.as_slice());
    proof {
        if r {
            assert(l@ =~= w@);
        }
    }
    r
}

impl ImageFormat {
    /// The format that a file extension names, in any ASCII case.
    pub fn from_extension(ext: &str) -> (r: Option<ImageFormat>)
        ensures
            r == format_from_extension(ext@),
    {
        let cs = chars_of(ext);
        let l = lower_all(cs.as_slice());
        if is_word(&l, "avif") {
            Some(ImageFormat::Avif)
        } else if is_word(&l, "jpg") || is_word(&l, "jpeg") || is_word(&l, "jfif") {
            Some(ImageFormat::Jpeg)
        } else if is_word(&l, "png") || is_word(&l, "apng") {
            Some(ImageFormat::Png)
        } else if is_word(&l, "gif") {
            Some(ImageFormat::Gif)
        } else if is_word(&l, "webp") {
            Some(ImageFormat::WebP)
        } else if is_word(&l, "tif") || is_word(&l, "tiff") {
            Some(ImageFormat::Tiff)
        } else if is_word(&l, "tga") {
            Some(ImageFormat::Tga)
        } else if is_word(&l, "dds") {
            Some(ImageFormat::Dds)
        } else if is_word(&l, "bmp") {
            Some(ImageFormat::Bmp)
        } else if is_word(&l, "ico") {
            Some(ImageFormat::Ico)
        } else if is_word(&l, "hdr") {
            Some(ImageFormat::Hdr)
        } else if is_word(&l, "exr") {
            Some(ImageFormat::OpenExr)
        } else if is_word(&l, "pbm") || is_word(&l, "pam") || is_word(&l, "ppm") || is_word(
            &l,
            "pgm",
        ) || is_word(&l, "pnm") {
            Some(ImageFormat::Pnm)
        } else if is_word(&l, "ff") {
            Some(ImageFormat::Farbfeld)
        } else if is_word(&l, "qoi") {
            Some(ImageFormat::Qoi)
        } else {
            None
        }
    }

    /// The file extensions of the format, the usual one first.
    pub fn extensions_str(self) -> (r: Vec<&'static str>)
        ensures
            r@.len() == format_extensions(self).len(),
            forall|i: int| 0 <= i < r@.len() ==> #[trigger] r@[i]@ == format_extensions(self)[i],
    {
        let r = match self {
            ImageFormat::Png => vec!["png"],
            ImageFormat::Jpeg => vec!["jpg", "jpeg"],
            ImageFormat::Gif => vec!["gif"],
            ImageFormat::WebP => vec!["webp"],
            ImageFormat::Pnm => vec!["pbm", "pam", "ppm", "pgm", "pnm"],
            ImageFormat::Tiff => vec!["tiff", "tif"],
            ImageFormat::Tga => vec!["tga"],
            ImageFormat::Dds => vec!["dds"],
            ImageFormat::Bmp => vec!["bmp"],
            ImageFormat::Ico => vec!["ico"],
            ImageFormat::Hdr => vec!["hdr"],
            ImageFormat::OpenExr => vec!["exr"],
            ImageFormat::Farbfeld => vec!["ff"],
            ImageFormat::Avif => vec!["avif"],
            ImageFormat::Qoi => vec!["qoi"],
            ImageFormat::Pcx => vec!["pcx"],
        };
        r
    }

    /// The MIME type of the format.
    pub fn to_mime_type(&self) -> (r: &'static str)
        ensures
            r@ == format_mime_type(*self),
    {
        match self {
            ImageFormat::Avif => "image/avif",
            ImageFormat::Jpeg => "image/jpeg",
            ImageFormat::Png => "image/png",
            ImageFormat::Gif => "image/gif",
            ImageFormat::WebP => "image/webp",
            ImageFormat::Tiff => "image/tiff",
            ImageFormat::Tga => "image/x-targa",
            ImageFormat::Dds => "image/vnd-ms.dds",
            ImageFormat::Bmp => "image/bmp",
            ImageFormat::Ico => "image/x-icon",
            ImageFormat::Hdr => "image/vnd.radiance",
            ImageFormat::OpenExr => "image/x-exr",
            ImageFormat::Pnm => "image/x-portable-anymap",
            ImageFormat::Qoi => "image/x-qoi",
            ImageFormat::Farbfeld => "application/octet-stream",
            ImageFormat::Pcx => "image/vnd.zbrush.pcx",
        }
    }
}

/// Every extension of a format names that format again, in any ASCII case;
/// the one exception is PCX, whose `pcx` is not read back as an extension.
pub proof fn lemma_extension_names_its_format(f: ImageFormat, i: int)
    requires
        0 <= i < format_extensions(f).len(),
        f != ImageFormat::Pcx,
    ensures
        format_from_extension(format_extensions(f)[i]) == Some(f),
{
    reveal_strlit("png");
    reveal_strlit("jpg");
    reveal_strlit("jpeg");
    reveal_strlit("gif");
    reveal_strlit("webp");
    reveal_strlit("pbm");
    reveal_strlit("pam");
    reveal_strlit("ppm");
    reveal_strlit("pgm");
    reveal_strlit("pnm");
    reveal_strlit("tiff");
    reveal_strlit("tif");
    reveal_strlit("tga");
    reveal_strlit("dds");
    reveal_strlit("bmp");
    reveal_strlit("ico");
    reveal_strlit("hdr");
    reveal_strlit("exr");
    reveal_strlit("ff");
    reveal_strlit("avif");
    reveal_strlit("qoi");
    reveal_strlit("jfif");
    reveal_strlit("apng");
    match f {
        ImageFormat::Png => {
            if i == 0 {
                assert(ascii_lower_seq("png"@) =~= "png"@);
                assert("png"@[0] != "jpg"@[0]);
                assert(format_from_extension("png"@) == Some(ImageFormat::Png));
            }
        },
        ImageFormat::Jpeg => {
            if i == 0 {
                assert(ascii_lower_seq("jpg"@) =~= "jpg"@);
                assert(format_from_extension("jpg"@) == Some(ImageFormat::Jpeg));
            }
            if i == 1 {
                assert(ascii_lower_seq("jpeg"@) =~= "jpeg"@);
                assert("jpeg"@[0] != "avif"@[0]);
                assert(format_from_extension("jpeg"@) == Some(ImageFormat::Jpeg));
            }
        },
        ImageFormat::Gif => {
            if i == 0 {
                assert(ascii_lower_seq("gif"@) =~= "gif"@);
                assert("gif"@[0] != "jpg"@[0]);
                assert("gif"@[0] != "png"@[0]);
                assert(format_from_extension("gif"@) == Some(ImageFormat::Gif));
            }
        },
        ImageFormat::WebP => {
            if i == 0 {
                assert(ascii_lower_seq("webp"@) =~= "webp"@);
                assert("webp"@[0] != "avif"@[0]);
                assert("webp"@[0] != "jpeg"@[0]);
                assert("webp"@[0] != "jfif"@[0]);
                assert("webp"@[0] != "apng"@[0]);
                assert(format_from_extension("webp"@) == Some(ImageFormat::WebP));
            }
        },
        ImageFormat::Pnm => {
            if i == 0 {
                assert(ascii_lower_seq("pbm"@) =~= "pbm"@);
                assert("pbm"@[0] != "jpg"@[0]);
                assert("pbm"@[1] != "png"@[1]);
                assert("pbm"@[0] != "gif"@[0]);
                assert("pbm"@[0] != "tif"@[0]);
                assert("pbm"@[0] != "tga"@[0]);
                assert("pbm"@[0] != "dds"@[0]);
                assert("pbm"@[0] != "bmp"@[0]);
                assert("pbm"@[0] != "ico"@[0]);
                assert("pbm"@[0] != "hdr"@[0]);
                assert("pbm"@[0] != "exr"@[0]);
                assert(format_from_extension("pbm"@) == Some(ImageFormat::Pnm));
            }
            if i == 1 {
                assert(ascii_lower_seq("pam"@) =~= "pam"@);
                assert("pam"@[0] != "jpg"@[0]);
                assert("pam"@[1] != "png"@[1]);
                assert("pam"@[0] != "gif"@[0]);
                assert("pam"@[0] != "tif"@[0]);
                assert("pam"@[0] != "tga"@[0]);
                assert("pam"@[0] != "dds"@[0]);
                assert("pam"@[0] != "bmp"@[0]);
                assert("pam"@[0] != "ico"@[0]);
                assert("pam"@[0] != "hdr"@[0]);
                assert("pam"@[0] != "exr"@[0]);
                assert("pam"@[1] != "pbm"@[1]);
                assert(format_from_extension("pam"@) == Some(ImageFormat::Pnm));
            }
            if i == 2 {
                assert(ascii_lower_seq("ppm"@) =~= "ppm"@);
                assert("ppm"@[0] != "jpg"@[0]);
                assert("ppm"@[1] != "png"@[1]);
                assert("ppm"@[0] != "gif"@[0]);
                assert("ppm"@[0] != "tif"@[0]);
                assert("ppm"@[0] != "tga"@[0]);
                assert("ppm"@[0] != "dds"@[0]);
                assert("ppm"@[0] != "bmp"@[0]);
                assert("ppm"@[0] != "ico"@[0]);
                assert("ppm"@[0] != "hdr"@[0]);
                assert("ppm"@[0] != "exr"@[0]);
                assert("ppm"@[1] != "pbm"@[1]);
                assert("ppm"@[1] != "pam"@[1]);
                assert(format_from_extension("ppm"@) == Some(ImageFormat::Pnm));
            }
            if i == 3 {
                assert(ascii_lower_seq("pgm"@) =~= "pgm"@);
                assert("pgm"@[0] != "jpg"@[0]);
                assert("pgm"@[1] != "png"@[1]);
                assert("pgm"@[0] != "gif"@[0]);
                assert("pgm"@[0] != "tif"@[0]);
                assert("pgm"@[0] != "tga"@[0]);
                assert("pgm"@[0] != "dds"@[0]);
                assert("pgm"@[0] != "bmp"@[0]);
                assert("pgm"@[0] != "ico"@[0]);
                assert("pgm"@[0] != "hdr"@[0]);
                assert("pgm"@[0] != "exr"@[0]);
                assert("pgm"@[1] != "pbm"@[1]);
                assert("pgm"@[1] != "pam"@[1]);
                assert("pgm"@[1] != "ppm"@[1]);
                assert(format_from_extension("pgm"@) == Some(ImageFormat::Pnm));
            }
            if i == 4 {
                assert(ascii_lower_seq("pnm"@) =~= "pnm"@);
                assert("pnm"@[0] != "jpg"@[0]);
                assert("pnm"@[2] != "png"@[2]);
                assert("pnm"@[0] != "gif"@[0]);
                assert("pnm"@[0] != "tif"@[0]);
                assert("pnm"@[0] != "tga"@[0]);
                assert("pnm"@[0] != "dds"@[0]);
                assert("pnm"@[0] != "bmp"@[0]);
                assert("pnm"@[0] != "ico"@[0]);
                assert("pnm"@[0] != "hdr"@[0]);
                assert("pnm"@[0] != "exr"@[0]);
                assert("pnm"@[1] != "pbm"@[1]);
                assert("pnm"@[1] != "pam"@[1]);
                assert("pnm"@[1] != "ppm"@[1]);
                assert("pnm"@[1] != "pgm"@[1]);
                assert(format_from_extension("pnm"@) == Some(ImageFormat::Pnm));
            }
        },
        ImageFormat::Tiff => {
            if i == 0 {
                assert(ascii_lower_seq("tiff"@) =~= "tiff"@);
                assert("tiff"@[0] != "avif"@[0]);
                assert("tiff"@[0] != "jpeg"@[0]);
                assert("tiff"@[0] != "jfif"@[0]);
                assert("tiff"@[0] != "apng"@[0]);
                assert("tiff"@[0] != "webp"@[0]);
                assert(format_from_extension("tiff"@) == Some(ImageFormat::Tiff));
            }
            if i == 1 {
                assert(ascii_lower_seq("tif"@) =~= "tif"@);
                assert("tif"@[0] != "jpg"@[0]);
                assert("tif"@[0] != "png"@[0]);
                assert("tif"@[0] != "gif"@[0]);
                assert(format_from_extension("tif"@) == Some(ImageFormat::Tiff));
            }
        },
        ImageFormat::Tga => {
            if i == 0 {
                assert(ascii_lower_seq("tga"@) =~= "tga"@);
                assert("tga"@[0] != "jpg"@[0]);
                assert("tga"@[0] != "png"@[0]);
                assert("tga"@[0] != "gif"@[0]);
                assert("tga"@[1] != "tif"@[1]);
                assert(format_from_extension("tga"@) == Some(ImageFormat::Tga));
            }
        },
        ImageFormat::Dds => {
            if i == 0 {
                assert(ascii_lower_seq("dds"@) =~= "dds"@);
                assert("dds"@[0] != "jpg"@[0]);
                assert("dds"@[0] != "png"@[0]);
                assert("dds"@[0] != "gif"@[0]);
                assert("dds"@[0] != "tif"@[0]);
                assert("dds"@[0] != "tga"@[0]);
                assert(format_from_extension("dds"@) == Some(ImageFormat::Dds));
            }
        },
        ImageFormat::Bmp => {
            if i == 0 {
                assert(ascii_lower_seq("bmp"@) =~= "bmp"@);
                assert("bmp"@[0] != "jpg"@[0]);
                assert("bmp"@[0] != "png"@[0]);
                assert("bmp"@[0] != "gif"@[0]);
                assert("bmp"@[0] != "tif"@[0]);
                assert("bmp"@[0] != "tga"@[0]);
                assert("bmp"@[0] != "dds"@[0]);
                assert(format_from_extension("bmp"@) == Some(ImageFormat::Bmp));
            }
        },
        ImageFormat::Ico => {
            if i == 0 {
                assert(ascii_lower_seq("ico"@) =~= "ico"@);
                assert("ico"@[0] != "jpg"@[0]);
                assert("ico"@[0] != "png"@[0]);
                assert("ico"@[0] != "gif"@[0]);
                assert("ico"@[0] != "tif"@[0]);
                assert("ico"@[0] != "tga"@[0]);
                assert("ico"@[0] != "dds"@[0]);
                assert("ico"@[0] != "bmp"@[0]);
                assert(format_from_extension("ico"@) == Some(ImageFormat::Ico));
            }
        },
        ImageFormat::Hdr => {
            if i == 0 {
                assert(ascii_lower_seq("hdr"@) =~= "hdr"@);
                assert("hdr"@[0] != "jpg"@[0]);
                assert("hdr"@[0] != "png"@[0]);
                assert("hdr"@[0] != "gif"@[0]);
                assert("hdr"@[0] != "tif"@[0]);
                assert("hdr"@[0] != "tga"@[0]);
                assert("hdr"@[0] != "dds"@[0]);
                assert("hdr"@[0] != "bmp"@[0]);
                assert("hdr"@[0] != "ico"@[0]);
                assert(format_from_extension("hdr"@) == Some(ImageFormat::Hdr));
            }
        },
        ImageFormat::OpenExr => {
            if i == 0 {
                assert(ascii_lower_seq("exr"@) =~= "exr"@);
                assert("exr"@[0] != "jpg"@[0]);
                assert("exr"@[0] != "png"@[0]);
                assert("exr"@[0] != "gif"@[0]);
                assert("exr"@[0] != "tif"@[0]);
                assert("exr"@[0] != "tga"@[0]);
                assert("exr"@[0] != "dds"@[0]);
                assert("exr"@[0] != "bmp"@[0]);
                assert("exr"@[0] != "ico"@[0]);
                assert("exr"@[0] != "hdr"@[0]);
                assert(format_from_extension("exr"@) == Some(ImageFormat::OpenExr));
            }
        },
        ImageFormat::Farbfeld => {
            if i == 0 {
                assert(ascii_lower_seq("ff"@) =~= "ff"@);
                assert(format_from_extension("ff"@) == Some(ImageFormat::Farbfeld));
            }
        },
        ImageFormat::Avif => {
            if i == 0 {
                assert(ascii_lower_seq("avif"@) =~= "avif"@);
                assert(format_from_extension("avif"@) == Some(ImageFormat::Avif));
            }
        },
        ImageFormat::Qoi => {
            if i == 0 {
                assert(ascii_lower_seq("qoi"@) =~= "qoi"@);
                assert("qoi"@[0] != "jpg"@[0]);
                assert("qoi"@[0] != "png"@[0]);
                assert("qoi"@[0] != "gif"@[0]);
                assert("qoi"@[0] != "tif"@[0]);
                assert("qoi"@[0] != "tga"@[0]);
                assert("qoi"@[0] != "dds"@[0]);
                assert("qoi"@[0] != "bmp"@[0]);
                assert("qoi"@[0] != "ico"@[0]);
                assert("qoi"@[0] != "hdr"@[0]);
                assert("qoi"@[0] != "exr"@[0]);
                assert("qoi"@[0] != "pbm"@[0]);
                assert("qoi"@[0] != "pam"@[0]);
                assert("qoi"@[0] != "ppm"@[0]);
                assert("qoi"@[0] != "pgm"@[0]);
                assert("qoi"@[0] != "pnm"@[0]);
                assert(format_from_extension("qoi"@) == Some(ImageFormat::Qoi));
            }
        },
        ImageFormat::Pcx => {},
    }
}

} // verus!
