use vstd::prelude::*;

use crate::paths::{same_path, spec_path_components};

verus! {

/// Image encoding of the extracted frames.
#[derive(Debug, Clone, Copy, PartialEq, Eq, Structural)]
pub enum ImageFormat {
    Jpeg,
}

/// One extraction job: a source video and the directory that receives its
/// bundle. Paths are held as UTF-8 text and compared as paths (by their
/// components).
#[derive(Debug, Clone)]
pub struct ExtractRequest {
    pub input: String,
    pub output_dir: String,
}

impl ExtractRequest {
    pub fn new(input: &str, output_dir: &str) -> (r: Self)
        ensures
            r.input@ == input@,
            r.output_dir@ == output_dir@,
    {
        ExtractRequest { input: String::from_str(input), output_dir: String::from_str(output_dir) }
    }
}

impl PartialEq for ExtractRequest {
    fn eq(&self, other: &Self) -> (r: bool) {
        same_path(self.input.as_str(), other.input.as_str()) && same_path(
            self.output_dir.as_str(),
            other.output_dir.as_str(),
        )
    }
}

impl vstd::std_specs::cmp::PartialEqSpecImpl for ExtractRequest {
    open spec fn obeys_eq_spec() -> bool {
        true
    }

    open spec fn eq_spec(&self, other: &Self) -> bool {
        &&& spec_path_components(self.input@) == spec_path_components(other.input@)
        &&& spec_path_components(self.output_dir@) == spec_path_components(other.output_dir@)
    }
}

impl Eq for ExtractRequest {}

/// The few knobs of an extraction; only [`ExtractDefaults::default`] is used.
#[derive(Debug, Clone, PartialEq, Eq, Structural)]
pub struct ExtractDefaults {
    pub target_fps_numerator: u32,
    pub target_fps_denominator: u32,
    pub canvas_width: u32,
    pub canvas_height: u32,
    pub tolerance_before_ms: u32,
    pub tolerance_after_ms: u32,
    pub image_format: ImageFormat,
}

/// 1 fps, a 1920x1080 canvas, +/- 500 ms tolerance, JPEG.
pub open spec fn spec_extract_defaults() -> ExtractDefaults {
    ExtractDefaults {
        target_fps_numerator: 1,
        target_fps_denominator: 1,
        canvas_width: 1920,
        canvas_height: 1080,
        tolerance_before_ms: 500,
        tolerance_after_ms: 500,
        image_format: ImageFormat::Jpeg,
    }
}

impl Default for ExtractDefaults {
    fn default() -> (d: Self)
        ensures
            d == spec_extract_defaults(),
    {
        ExtractDefaults {
            target_fps_numerator: 1,
            target_fps_denominator: 1,
            canvas_width: 1920,
            canvas_height: 1080,
            tolerance_before_ms: 500,
            tolerance_after_ms: 500,
            image_format: ImageFormat::Jpeg,
        }
    }
}

/// Where a bundle was written and how many frames it holds.
#[derive(Debug, Clone)]
pub struct ExtractResult {
    pub bundle_dir: String,
    pub frame_count: usize,
}

impl PartialEq for ExtractResult {
    fn eq(&self, other: &Self) -> (r: bool) {
        same_path(self.bundle_dir.as_str(), other.bundle_dir.as_str())
            && self.frame_count == other.frame_count
    }
}

impl vstd::std_specs::cmp::PartialEqSpecImpl for ExtractResult {
    open spec fn obeys_eq_spec() -> bool {
        true
    }

    open spec fn eq_spec(&self, other: &Self) -> bool {
        &&& spec_path_components(self.bundle_dir@) == spec_path_components(other.bundle_dir@)
        &&& self.frame_count == other.frame_count
    }
}

impl Eq for ExtractResult {}

/// Source-video metadata as the native extractor reports it (its floating
/// aspect ratio is carried outside the library).
#[derive(Debug, Clone)]
pub struct NativeSourceVideoMetadata {
    pub file_size_bytes: u64,
    pub container_format: String,
    pub video_codec: String,
    pub duration_ms: u64,
    pub width: u32,
    pub height: u32,
    pub display_width: u32,
    pub display_height: u32,
    pub avg_frame_rate: String,
    pub rotation_degrees: i64,
    pub creation_time: Option<String>,
    pub timecode: Option<String>,
    pub has_audio: bool,
}

/// One frame the native extractor wrote.
#[derive(Debug, Clone)]
pub struct NativeFrameRecord {
    pub frame_relpath: String,
    pub requested_ts_ms: u64,
    pub actual_ts_ms: u64,
}

/// Everything the native extractor reports for one video.
#[derive(Debug, Clone)]
pub struct NativeExtractPayload {
    pub source_video: NativeSourceVideoMetadata,
    pub frames: Vec<NativeFrameRecord>,
}

/// Source-video metadata as recorded in `bundle.json`.
#[derive(Debug, Clone)]
pub struct SourceVideoMetadata {
    pub source_relpath: String,
    pub file_size_bytes: u64,
    pub container_format: String,
    pub video_codec: String,
    pub duration_ms: u64,
    pub width: u32,
    pub height: u32,
    pub display_width: u32,
    pub display_height: u32,
    pub avg_frame_rate: String,
    pub rotation_degrees: i64,
    pub creation_time: Option<String>,
    pub timecode: Option<String>,
    pub has_audio: bool,
}

#[derive(Debug, Clone)]
pub struct ProducerMetadata {
    pub name: String,
    pub version: String,
}

#[derive(Debug, Clone, PartialEq, Eq, Structural)]
pub struct SamplingMetadata {
    pub requested_interval_ms: u64,
    pub tolerance_before_ms: u32,
    pub tolerance_after_ms: u32,
}

#[derive(Debug, Clone)]
pub struct ImageMetadata {
    pub format: String,
    pub canvas_width: u32,
    pub canvas_height: u32,
    pub fit_mode: String,
    pub padding: String,
}

/// The contents of `bundle.json`.
#[derive(Debug, Clone)]
pub struct BundleMetadata {
    pub format: String,
    pub format_version: u32,
    pub bundle_id: String,
    pub created_at: String,
    pub created_at_unix_ms: u128,
    pub producer: ProducerMetadata,
    pub sampling: SamplingMetadata,
    pub image: ImageMetadata,
    pub source_video: SourceVideoMetadata,
}

/// One line of the JSON-lines frame manifest (the source aspect ratio, a float, is added
/// outside the library).
#[derive(Debug, Clone)]
pub struct ManifestRow {
    pub frame_id: String,
    pub frame_relpath: String,
    pub source_relpath: String,
    pub requested_ts_ms: u64,
    pub actual_ts_ms: u64,
    pub width: u32,
    pub height: u32,
    pub content_hash: String,
    pub source_width: u32,
    pub source_height: u32,
    pub content_rect_x: u32,
    pub content_rect_y: u32,
    pub content_rect_width: u32,
    pub content_rect_height: u32,
    pub extractor: String,
    pub extractor_version: String,
}

} // verus!
