//! Quality settings for the run, fixed once and shared by every worker.

use vstd::prelude::*;

verus! {

/// Default JPEG quality target.
pub const DEFAULT_JPG_QUALITY: u8 = 80;

/// Default lower bound for PNG quantization quality.
pub const DEFAULT_PNG_MIN: u8 = 65;

/// Default upper bound for PNG quantization quality.
pub const DEFAULT_PNG_MAX: u8 = 80;

/// The codec quality targets of one run. Each lies in `1..=100`; the PNG
/// bounds are passed through as given, with no requirement that the
/// minimum stay below the maximum.
#[derive(Clone, Copy, PartialEq, Eq, Structural, Debug)]
pub struct QualitySettings {
    pub jpg_quality: u8,
    pub png_min: u8,
    pub png_max: u8,
}

/// A quality value the codecs accept.
pub open spec fn quality_in_range(q: u8) -> bool {
    1 <= q <= 100
}

impl QualitySettings {
    /// Every field lies in the accepted quality range.
    pub open spec fn wf(self) -> bool {
        quality_in_range(self.jpg_quality) && quality_in_range(self.png_min) && quality_in_range(
            self.png_max,
        )
    }

    /// Accept the given targets exactly when each lies in `1..=100`.
    pub fn new(jpg_quality: u8, png_min: u8, png_max: u8) -> (r: Option<QualitySettings>)
        ensures
            match r {
                Some(s) => s.wf() && s.jpg_quality == jpg_quality && s.png_min == png_min
                    && s.png_max == png_max,
                None => !(quality_in_range(jpg_quality) && quality_in_range(png_min)
                    && quality_in_range(png_max)),
            },
    {
        if 1 <= jpg_quality && jpg_quality <= 100 && 1 <= png_min && png_min <= 100 && 1 <= png_max
            && png_max <= 100 {
            Some(QualitySettings { jpg_quality, png_min, png_max })
        } else {
            None
        }
    }
}

impl Default for QualitySettings {
    /// The run's defaults: JPEG quality 80, PNG quality 65 to 80.
    fn default() -> (r: QualitySettings)
        ensures
            r.wf(),
            r.jpg_quality == DEFAULT_JPG_QUALITY,
            r.png_min == DEFAULT_PNG_MIN,
            r.png_max == DEFAULT_PNG_MAX,
    {
        QualitySettings {
            jpg_quality: DEFAULT_JPG_QUALITY,
            png_min: DEFAULT_PNG_MIN,
            png_max: DEFAULT_PNG_MAX,
        }
    }
}

} // verus!
