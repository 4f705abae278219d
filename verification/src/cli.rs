//! The command-line arguments, and the options they stand for.
use vstd::prelude::*;
use crate::adapters::{AdapterError, AdapterResolver, FileAdapter, adapter_for};
use crate::color::{BackgroundOptions, Rgba, parse_color, parse_color_result};
use crate::coord::Coord;
use crate::crop::CropOptions;
use crate::decimal::Decimal;
use crate::format::{ImageFormat, format_from_extension};
use crate::options::{
    AspectRatioStrategy, BlurOptions, ColorsOptions, FormatError, FormatOptions, MirrorOptions,
    QualityOptions, ResizeFilter, ResizeOptions, RotateOptions, Sharpen, format_error_message,
    supported_output,
};

verus! {

/// `--background-color`.
pub struct BackgroundArgs {
    pub background_color: String,
}

impl BackgroundArgs {
    /// The background of the colour text; `None` when it is no colour.
    pub fn get(&self) -> (r: Option<BackgroundOptions>)
        ensures
            r == (match parse_color_result(self.background_color@) {
                Some((cr, cg, cb)) => Some(
                    BackgroundOptions { color: Rgba { r: cr, g: cg, b: cb, a: 255 } },
                ),
                None => None,
            }),
    {
        match parse_color(self.background_color.as_str()) {
            Some((r, g, b)) => Some(BackgroundOptions::from_rgb(r, g, b)),
            None => None,
        }
    }
}

/// `--blur`.
pub struct BlurArgs {
    pub blur: Option<Decimal>,
}

impl BlurArgs {
    /// A blur of the given sigma, if one is given.
    pub fn get(&self) -> (r: Option<BlurOptions>)
        ensures
            r == (match self.blur {
                Some(v) => Some(BlurOptions { blur: Some(v) }),
                None => None,
            }),
    {
        match self.blur {
            Some(v) => Some(BlurOptions { blur: Some(v) }),
            None => None,
        }
    }
}

/// `--grayscale`, `--brightness`, `--contrast`, `--gamma`, `--invert`.
pub struct ColorsEffectsArgs {
    pub grayscale: bool,
    pub brightness: Option<i32>,
    pub contrast: Option<Decimal>,
    pub gamma: Option<Decimal>,
    pub invert: bool,
}

impl ColorsEffectsArgs {
    /// The colour adjustments as given.
    pub fn get(&self) -> (r: Option<ColorsOptions>)
        ensures
            r == Some(
                ColorsOptions {
                    grayscale: self.grayscale,
                    brightness: self.brightness,
                    contrast: self.contrast,
                    gamma: self.gamma,
                    invert: self.invert,
                },
            ),
    {
        Some(
            ColorsOptions {
                grayscale: self.grayscale,
                brightness: self.brightness,
                contrast: self.contrast,
                gamma: self.gamma,
                invert: self.invert,
            },
        )
    }
}

/// `--crop-width`, `--crop-height`, `--crop-offset-x`, `--crop-offset-y`.
pub struct CropArgs {
    pub crop_width: Option<Coord>,
    pub crop_height: Option<Coord>,
    pub offset_x: Option<Coord>,
    pub offset_y: Option<Coord>,
}

impl CropArgs {
    /// The crop as given.
    pub fn get(&self) -> (r: Option<CropOptions>)
        ensures
            r == Some(
                CropOptions {
                    width: self.crop_width,
                    height: self.crop_height,
                    offset_x: self.offset_x,
                    offset_y: self.offset_y,
                },
            ),
    {
        Some(
            CropOptions {
                width: self.crop_width,
                height: self.crop_height,
                offset_x: self.offset_x,
                offset_y: self.offset_y,
            },
        )
    }
}

/// `--format` and `--auto-format`.
pub struct FormatArgs {
    pub format: Option<String>,
    pub auto_format: bool,
}

/// Why a `--format` is refused.
#[derive(Debug)]
pub enum FormatArgsError {
    /// The text names no format (held).
    UnknownFormat(String),
    /// The format cannot be written.
    Unsupported(FormatError),
}

impl FormatArgsError {
    /// The error message.
    pub fn to_string(&self) -> (r: String)
        ensures
            r@ == (match *self {
                FormatArgsError::UnknownFormat(fmt) => "[cli/format] Unsupported format '"@ + fmt@
                    + "'. Supported formats: jpeg, jpg, png, webp, avif, gif"@,
                FormatArgsError::Unsupported(e) => format_error_message(e),
            }),
    {
        match self {
            FormatArgsError::UnknownFormat(fmt) => String::from_str(
                "[cli/format] Unsupported format '",
            ).concat(fmt.as_str()).concat(
                "'. Supported formats: jpeg, jpg, png, webp, avif, gif",
            ),
            FormatArgsError::Unsupported(e) => e.to_string(),
        }
    }
}

impl FormatArgs {
    /// The format that `--format` names as an extension (in any case), if
    /// given; refused when it names none, or one that cannot be written.
    pub fn get(&self) -> (r: Result<Option<FormatOptions>, FormatArgsError>)
        ensures
            match self.format {
                None => r matches Ok(None),
                Some(fmt) => match format_from_extension(fmt@) {
                    None => r matches Err(FormatArgsError::UnknownFormat(t)) && t@ == fmt@,
                    Some(f) => if supported_output(f) {
                        r matches Ok(Some(o)) && o == (FormatOptions { format: Some(f) })
                    } else {
                        r matches Err(FormatArgsError::Unsupported(e)) && e
                            == FormatError::Unsupported(f)
                    },
                },
            },
    {
        match &self.format {
            None => Ok(None),
            Some(fmt) => {
                let image_format = match ImageFormat::from_extension(fmt.as_str()) {
                    Some(f) => f,
                    None => return Err(FormatArgsError::UnknownFormat(fmt.clone())),
                };
                match FormatOptions::new(Some(image_format)) {
                    Ok(opts) => Ok(Some(opts)),
                    Err(e) => Err(FormatArgsError::Unsupported(e)),
                }
            },
        }
    }
}

/// `--input` and `--output`.
pub struct IoArgs {
    pub input: String,
    pub output: Option<String>,
}

impl IoArgs {
    /// The output path; `./` when none is given.
    pub fn get_output(&self) -> (s: String)
        ensures
            s@ == (match self.output {
                Some(o) => o@,
                None => "./"@,
            }),
    {
        match &self.output {
            Some(s) => s.clone(),
            None => String::from_str("./"),
        }
    }

    /// The adapter that reads the input.
    pub fn resolve_source(&self) -> (r: Result<FileAdapter, AdapterError>)
        ensures
            match adapter_for(self.input@) {
                Some(a) => r == Ok::<FileAdapter, AdapterError>(a),
                None => r matches Err(AdapterError::NoSourceAdapter(u)) && u@ == self.input@,
            },
    {
        AdapterResolver::resolve_source(self.input.as_str())
    }

    /// The adapter that writes the output.
    pub fn resolve_destination(&self) -> (r: Result<FileAdapter, AdapterError>)
        ensures
            ({
                let out = match self.output {
                    Some(o) => o@,
                    None => "./"@,
                };
                match adapter_for(out) {
                    Some(a) => r == Ok::<FileAdapter, AdapterError>(a),
                    None => r matches Err(AdapterError::NoDestinationAdapter(u)) && u@ == out,
                }
            }),
    {
        let out = self.get_output();
        AdapterResolver::resolve_destination(out.as_str())
    }
}

/// `--flip` and `--flop`.
pub struct MirrorArgs {
    pub flip: bool,
    pub flop: bool,
}

impl MirrorArgs {
    /// The mirroring, when either flag is set.
    pub fn get(&self) -> (r: Option<MirrorOptions>)
        ensures
            r == (if !self.flip && !self.flop {
                None
            } else {
                Some(MirrorOptions { flip: self.flip, flop: self.flop })
            }),
    {
        if !self.flip && !self.flop {
            return None;
        }
        Some(MirrorOptions { flip: self.flip, flop: self.flop })
    }
}

/// `--quality`.
pub struct QualityArgs {
    pub quality: Option<u8>,
}

impl QualityArgs {
    /// The quality, when one is given and at most 100.
    pub fn get(&self) -> (r: Option<QualityOptions>)
        ensures
            r == (match self.quality {
                Some(q) => if q <= 100 {
                    Some(QualityOptions { quality: Some(Decimal { micros: (q * 1_000_000) as i64 }) })
                } else {
                    None
                },
                None => None,
            }),
    {
        match self.quality {
            Some(q) => match QualityOptions::new(Some(Decimal::from_int(q as i32))) {
                Ok(o) => Some(o),
                Err(_) => None,
            },
            None => None,
        }
    }
}

/// `--width`, `--height`, `--dpr`, `--aspect-ratio`.
pub struct ResizeArgs {
    pub width: Option<u32>,
    pub height: Option<u32>,
    pub dpr: Option<Decimal>,
    pub aspect_ratio: Option<AspectRatioStrategy>,
}

impl ResizeArgs {
    /// The resize as given; the ratio defaults to 1 and the strategy to `Fit`.
    pub fn get(&self) -> (r: Option<ResizeOptions>)
        ensures
            r == Some(
                ResizeOptions {
                    width: self.width,
                    height: self.height,
                    dpr: match self.dpr {
                        Some(d) => d,
                        None => Decimal { micros: 1_000_000 },
                    },
                    strategy: match self.aspect_ratio {
                        Some(s) => s,
                        None => AspectRatioStrategy::Fit,
                    },
                    filter: ResizeFilter::Triangle,
                },
            ),
    {
        let dpr = match self.dpr {
            Some(d) => d,
            None => Decimal::from_micros(1_000_000),
        };
        let strategy = match self.aspect_ratio {
            Some(s) => s,
            None => AspectRatioStrategy::Fit,
        };
        Some(ResizeOptions::new(self.width, self.height).dpr(dpr).strategy(strategy))
    }
}

/// `--rotate`.
pub struct RotateArgs {
    pub rotate: Option<Decimal>,
}

impl RotateArgs {
    /// The rotation, when an angle is given.
    pub fn get(&self) -> (r: Option<RotateOptions>)
        ensures
            r == (match self.rotate {
                Some(a) => Some(RotateOptions { angle_degrees: Some(a) }),
                None => None,
            }),
    {
        match self.rotate {
            Some(a) => Some(RotateOptions { angle_degrees: Some(a) }),
            None => None,
        }
    }
}

/// `--sharpen-sigma` and `--sharpen-threshold`.
pub struct SharpenArgs {
    pub sharpen_sigma: Option<Decimal>,
    pub sharpen_threshold: Option<i32>,
}

impl SharpenArgs {
    /// The sharpening, when both its sigma and threshold are given.
    pub fn get(&self) -> (r: Option<Sharpen>)
        ensures
            r == (match (self.sharpen_sigma, self.sharpen_threshold) {
                (Some(sigma), Some(threshold)) => Some(Sharpen { sigma, threshold }),
                _ => None,
            }),
    {
        if let (Some(sigma), Some(threshold)) = (self.sharpen_sigma, self.sharpen_threshold) {
            return Some(Sharpen { sigma, threshold });
        }
        None
    }
}

} // verus!
