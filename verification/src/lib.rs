//! Sparse visual bundles from one source video: the geometry of the padded
//! canvas, the bundle and manifest records, their framing as JSON lines, and
//! the native extractor's command line.
pub mod bundle;
pub mod calendar;
pub mod clock;
pub mod hashing;
pub mod jsonl;
pub mod layout;
pub mod model;
pub mod native;
pub mod paths;
pub mod summary;
pub mod text;

pub use bundle::{
    bundle_metadata, frame_id, manifest_rows, sampling_interval_ms, source_metadata, validate_input,
};
pub use calendar::{rfc3339_utc, RFC3339_END_UNIX_MS};
pub use clock::{bundle_id, bundle_id_from_clock};
pub use hashing::{content_hash, format_hex_bytes};
pub use jsonl::frame_manifest;
pub use layout::content_rect;
pub use model::{
    BundleMetadata, ExtractDefaults, ExtractRequest, ExtractResult, ImageFormat, ImageMetadata,
    ManifestRow, NativeExtractPayload, NativeFrameRecord, NativeSourceVideoMetadata,
    ProducerMetadata, SamplingMetadata, SourceVideoMetadata,
};
pub use native::{
    helper_binary_path, helper_source_path, join_path, native_extract_args,
    native_extract_outcome, needs_compile, swiftc_args, swiftc_outcome,
};
pub use paths::{path_components, same_path};
pub use summary::design_summary;
pub use text::{format_decimal, format_hex, format_zero_padded};
