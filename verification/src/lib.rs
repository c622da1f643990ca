pub mod alphabet;
pub mod imageio;
pub mod render;
pub mod sampler;
pub mod tone;

use vstd::prelude::*;

use crate::imageio::decode_and_resize;
use crate::imageio::decode_ok;
use crate::imageio::decoded_rgba_of;
use crate::imageio::luma_seq_of;
use crate::imageio::rgba_to_luma;
use crate::render::color_output;
use crate::render::gray_output;
use crate::render::grid_char;
use crate::render::lemma_gray_output_shape;
use crate::render::render_color;
use crate::render::render_gray;
use crate::sampler::RgbaBuffer;
use crate::tone::adjust_rgba_data;
use crate::tone::adjust_seq;

verus! {

/// The conversion configuration. Dimensions are in output glyphs; the
/// four numeric knobs are exact fixed-point values in thousandths:
/// 1000 stands for the neutral multiplier 1.
#[derive(Clone, Copy, Debug)]
pub struct AsciiConfig {
    pub width: u32,
    pub height: u32,
    pub use_detailed_chars: bool,
    pub use_high_density: bool,
    pub use_color: bool,
    /// Color saturation in thousandths: 0 is neutral gray, 1000 keeps
    /// the full aggregate color.
    pub color_saturation: u32,
    pub invert: bool,
    /// Contrast multiplier in thousandths; negative values flip the
    /// channels around mid-gray before clamping.
    pub contrast: i32,
    /// Brightness multiplier in thousandths.
    pub brightness: i32,
    /// Internal oversampling factor in thousandths.
    pub scale: u32,
}

impl Default for AsciiConfig {
    /// The default configuration: a 100x50 grid of basic glyphs,
    /// saturation 0.7, neutral tone multipliers and no oversampling.
    fn default() -> (c: AsciiConfig)
        ensures
            c.width == 100,
            c.height == 50,
            !c.use_detailed_chars,
            !c.use_high_density,
            !c.use_color,
            c.color_saturation == 700,
            !c.invert,
            c.contrast == 1000,
            c.brightness == 1000,
            c.scale == 1000,
    {
        AsciiConfig {
            width: 100,
            height: 50,
            use_detailed_chars: false,
            use_high_density: false,
            use_color: false,
            color_saturation: 700,
            invert: false,
            contrast: 1000,
            brightness: 1000,
            scale: 1000,
        }
    }
}

/// A conversion failure: the input bytes could not be decoded, or the
/// output could not be written. Each carries a human-readable cause.
#[derive(Debug)]
pub enum AsciiError {
    DecodeError(String),
    WriteError(String),
}

impl AsciiError {
    /// The human-readable cause of the failure.
    pub fn cause(&self) -> (m: &String)
        ensures
            self matches AsciiError::DecodeError(s) ==> m == s,
            self matches AsciiError::WriteError(s) ==> m == s,
    {
        match self {
            AsciiError::DecodeError(s) => s,
            AsciiError::WriteError(s) => s,
        }
    }
}

/// One dimension of the oversampled intermediate image: the output
/// grid dimension times the scale factor, in whole pixels.
pub open spec fn target_dim(d: int, scale: int) -> int {
    (d * scale) / 1000
}

/// The whole-pipeline output for a decoded and resized RGBA byte
/// sequence: tone adjustment, then grayscale glyph rows or the colored
/// HTML document.
pub open spec fn pipeline_output(rgba: Seq<u8>, cfg: AsciiConfig) -> Seq<char> {
    let tw = target_dim(cfg.width as int, cfg.scale as int);
    let th = target_dim(cfg.height as int, cfg.scale as int);
    let sf = cfg.scale as int / 1000;
    let adj = adjust_seq(rgba, cfg.contrast as int, cfg.brightness as int);
    if cfg.use_color {
        color_output(
            adj, tw, th, sf, cfg.invert, cfg.color_saturation as int,
            cfg.use_detailed_chars, cfg.use_high_density, cfg.width as int, cfg.height as int,
        )
    } else {
        gray_output(
            luma_seq_of(adj), tw, th, sf, cfg.invert,
            cfg.use_high_density, cfg.use_detailed_chars, cfg.width as int, cfg.height as int,
        )
    }
}

/// Converts images to glyph art under a fixed configuration.
pub struct AsciiConverter {
    pub config: AsciiConfig,
}

impl AsciiConverter {
    /// A converter for the given output grid with the default options.
    pub fn new(width: u32, height: u32) -> (c: AsciiConverter)
        ensures
            c.config.width == width,
            c.config.height == height,
            !c.config.use_detailed_chars,
            !c.config.use_high_density,
            !c.config.use_color,
            c.config.color_saturation == 700,
            !c.config.invert,
            c.config.contrast == 1000,
            c.config.brightness == 1000,
            c.config.scale == 1000,
    {
        let base = AsciiConfig::default();
        AsciiConverter {
            config: AsciiConfig {
                width,
                height,
                use_detailed_chars: base.use_detailed_chars,
                use_high_density: base.use_high_density,
                use_color: base.use_color,
                color_saturation: base.color_saturation,
                invert: base.invert,
                contrast: base.contrast,
                brightness: base.brightness,
                scale: base.scale,
            },
        }
    }

    /// A converter with a custom configuration.
    pub fn with_config(config: AsciiConfig) -> (c: AsciiConverter)
        ensures
            c.config == config,
    {
        AsciiConverter { config }
    }

    /// Converts in-memory image bytes to glyph art.
    ///
    /// The conversion succeeds exactly when the bytes decode; on
    /// success the result is exactly the pipeline output of the decoded
    /// pixels resized to the oversampled target dimensions — a function
    /// of the bytes and the configuration alone — and a grayscale
    /// result is exactly `height` newline-terminated lines of exactly
    /// `width` glyphs.
    pub fn convert_from_bytes(&self, bytes: &[u8]) -> (r: Result<String, AsciiError>)
        requires
            target_dim(self.config.width as int, self.config.scale as int) <= u32::MAX,
            target_dim(self.config.height as int, self.config.scale as int) <= u32::MAX,
            4 * target_dim(self.config.width as int, self.config.scale as int)
                * target_dim(self.config.height as int, self.config.scale as int) <= usize::MAX,
        ensures
            r is Ok <==> decode_ok(bytes@),
            (r matches Err(e) ==> e is DecodeError),
            (r matches Ok(s) ==> s@ == pipeline_output(
                decoded_rgba_of(
                    bytes@,
                    target_dim(self.config.width as int, self.config.scale as int),
                    target_dim(self.config.height as int, self.config.scale as int),
                ),
                self.config,
            )),
            (r matches Ok(s) ==> self.config.use_color || {
                &&& s@.len() == self.config.height as int * (self.config.width as int + 1)
                &&& forall|row: int| 0 <= row < self.config.height as int
                    ==> #[trigger] grid_char(s@, self.config.width as int, row, self.config.width as int) == '\n'
                &&& forall|row: int, col: int|
                    0 <= row < self.config.height as int && 0 <= col < self.config.width as int
                    ==> #[trigger] grid_char(s@, self.config.width as int, row, col) != '\n'
            }),
    {
        let cfg = self.config;
        proof {
            assert((cfg.width as int) * (cfg.scale as int) < 0x1_0000_0000_0000_0000
                && (cfg.height as int) * (cfg.scale as int) < 0x1_0000_0000_0000_0000) by (nonlinear_arith)
                requires
                    0 <= (cfg.width as int) < 0x1_0000_0000,
                    0 <= (cfg.height as int) < 0x1_0000_0000,
                    0 <= (cfg.scale as int) < 0x1_0000_0000;
        }
        let tw64: u64 = (cfg.width as u64) * (cfg.scale as u64) / 1000;
        let th64: u64 = (cfg.height as u64) * (cfg.scale as u64) / 1000;
        let tw: u32 = tw64 as u32;
        let th: u32 = th64 as u32;
        let sf: u32 = cfg.scale / 1000;
        let rgba: RgbaBuffer = match decode_and_resize(bytes, tw, th) {
            Ok(buf) => buf,
            Err(m) => {
                return Err(AsciiError::DecodeError(m));
            },
        };
        let adj_data = adjust_rgba_data(&rgba.data, cfg.contrast, cfg.brightness);
        let adj = RgbaBuffer { width: tw, height: th, data: adj_data };
        proof {
            assert(adj.wf());
        }
        if cfg.use_color {
            let s = render_color(
                &adj, cfg.width, cfg.height, sf, cfg.invert, cfg.color_saturation,
                cfg.use_detailed_chars, cfg.use_high_density,
            );
            proof {
                assert(s@ == pipeline_output(rgba.data@, cfg));
            }
            Ok(s)
        } else {
            let gray = rgba_to_luma(&adj);
            let s = render_gray(
                &gray, cfg.width, cfg.height, sf, cfg.invert,
                cfg.use_high_density, cfg.use_detailed_chars,
            );
            proof {
                assert(s@ == pipeline_output(rgba.data@, cfg));
                lemma_gray_output_shape(
                    gray.data@, tw as int, th as int, sf as int, cfg.invert,
                    cfg.use_high_density, cfg.use_detailed_chars,
                    cfg.width as int, cfg.height as int,
                );
            }
            Ok(s)
        }
    }
}

} // verus!
