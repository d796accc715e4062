use vstd::prelude::*;

use crate::calendar::{rfc3339_utc, spec_rfc3339_utc, RFC3339_END_UNIX_MS};
use crate::layout::{content_rect, spec_content_rect};
use crate::model::{
    BundleMetadata, ExtractDefaults, ImageMetadata, ManifestRow, NativeFrameRecord,
    NativeSourceVideoMetadata, ProducerMetadata, SamplingMetadata, SourceVideoMetadata,
};
use crate::text::{format_zero_padded, spec_zero_padded};

verus! {

/// Why an input path cannot be extracted, given whether it exists and
/// whether it is a regular file.
pub open spec fn spec_input_error(input: Seq<char>, exists: bool, is_file: bool) -> Option<Seq<char>> {
    if !exists {
        Some("input does not exist: "@ + input)
    } else if !is_file {
        Some("input is not a file: "@ + input)
    } else {
        None
    }
}

/// Accepts an input path that exists and is a regular file; otherwise returns
/// the message that names the path and what is wrong with it.
pub fn validate_input(input: &str, exists: bool, is_file: bool) -> (r: Result<(), String>)
    ensures
        r is Ok <==> spec_input_error(input@, exists, is_file) is None,
        r matches Err(msg) ==> Some(msg@) == spec_input_error(input@, exists, is_file),
{
    if !exists {
        let mut msg = String::from_str("input does not exist: ");
        msg.append(input);
        Err(msg)
    } else if !is_file {
        let mut msg = String::from_str("input is not a file: ");
        msg.append(input);
        Err(msg)
    } else {
        Ok(())
    }
}

/// The source metadata of `bundle.json`: the native report, with the input
/// path as the source's relative path.
pub open spec fn spec_source_metadata_matches(
    s: SourceVideoMetadata,
    input: Seq<char>,
    native: NativeSourceVideoMetadata,
) -> bool {
    &&& s.source_relpath@ == input
    &&& s.file_size_bytes == native.file_size_bytes
    &&& s.container_format == native.container_format
    &&& s.video_codec == native.video_codec
    &&& s.duration_ms == native.duration_ms
    &&& s.width == native.width
    &&& s.height == native.height
    &&& s.display_width == native.display_width
    &&& s.display_height == native.display_height
    &&& s.avg_frame_rate == native.avg_frame_rate
    &&& s.rotation_degrees == native.rotation_degrees
    &&& s.creation_time == native.creation_time
    &&& s.timecode == native.timecode
    &&& s.has_audio == native.has_audio
}

/// Records the native extractor's report of the source video under the
/// input's path.
pub fn source_metadata(input: &str, native: NativeSourceVideoMetadata) -> (s: SourceVideoMetadata)
    ensures
        spec_source_metadata_matches(s, input@, native),
{
    SourceVideoMetadata {
        source_relpath: String::from_str(input),
        file_size_bytes: native.file_size_bytes,
        container_format: native.container_format,
        video_codec: native.video_codec,
        duration_ms: native.duration_ms,
        width: native.width,
        height: native.height,
        display_width: native.display_width,
        display_height: native.display_height,
        avg_frame_rate: native.avg_frame_rate,
        rotation_degrees: native.rotation_degrees,
        creation_time: native.creation_time,
        timecode: native.timecode,
        has_audio: native.has_audio,
    }
}

/// The identifier of the frame at position `index` (counted from 0):
/// `frame_` and its 1-based number, zero-padded to six digits.
pub open spec fn spec_frame_id(index: nat) -> Seq<char> {
    "frame_"@ + spec_zero_padded(index + 1, 6)
}

/// Writes the identifier of the frame at position `index` (counted from 0).
pub fn frame_id(index: usize) -> (s: String)
    ensures
        s@ == spec_frame_id(index as nat),
{
    let number = format_zero_padded(index as u128 + 1, 6);
    let mut s = String::from_str("frame_");
    s.append(number.as_str());
    s
}

/// The name the manifest records for the extractor.
pub open spec fn spec_extractor_name() -> Seq<char> {
    "avasset-image-generator"@
}

/// What the manifest row of frame `index` holds.
pub open spec fn spec_manifest_row_matches(
    row: ManifestRow,
    index: nat,
    frame: NativeFrameRecord,
    content_hash: Seq<char>,
    source: SourceVideoMetadata,
    defaults: ExtractDefaults,
    extractor_version: Seq<char>,
) -> bool {
    let rect = spec_content_rect(
        source.width as nat,
        source.height as nat,
        defaults.canvas_width as nat,
        defaults.canvas_height as nat,
    );
    &&& row.frame_id@ == spec_frame_id(index)
    &&& row.frame_relpath@ == frame.frame_relpath@
    &&& row.source_relpath@ == source.source_relpath@
    &&& row.requested_ts_ms == frame.requested_ts_ms
    &&& row.actual_ts_ms == frame.actual_ts_ms
    &&& row.width == defaults.canvas_width
    &&& row.height == defaults.canvas_height
    &&& row.content_hash@ == content_hash
    &&& row.source_width == source.width
    &&& row.source_height == source.height
    &&& row.content_rect_x as nat == rect.0
    &&& row.content_rect_y as nat == rect.1
    &&& row.content_rect_width as nat == rect.2
    &&& row.content_rect_height as nat == rect.3
    &&& row.extractor@ == spec_extractor_name()
    &&& row.extractor_version@ == extractor_version
}

/// One manifest row per extracted frame, in the order the extractor reported
/// them: its identifier, where the image lives, the requested and actual
/// timestamps, the canvas size, the image's content hash (`content_hashes[i]`
/// for frame `i`) and where the source content lies on the canvas.
pub fn manifest_rows(
    frames: &Vec<NativeFrameRecord>,
    content_hashes: &Vec<String>,
    source: &SourceVideoMetadata,
    defaults: &ExtractDefaults,
    extractor_version: &str,
) -> (rows: Vec<ManifestRow>)
    requires
        content_hashes.len() == frames.len(),
    ensures
        rows.len() == frames.len(),
        forall|i: int|
            0 <= i < frames.len() ==> #[trigger] spec_manifest_row_matches(
                rows[i],
                i as nat,
                frames[i],
                content_hashes[i]@,
                *source,
                *defaults,
                extractor_version@,
            ),
{
    let (x, y, w, h) = content_rect(
        source.width,
        source.height,
        defaults.canvas_width,
        defaults.canvas_height,
    );
    let mut rows: Vec<ManifestRow> = Vec::new();
    for index in 0..frames.len()
        invariant
            content_hashes.len() == frames.len(),
            rows.len() == index,
            forall|i: int|
                0 <= i < index ==> #[trigger] spec_manifest_row_matches(
                    rows[i],
                    i as nat,
                    frames[i],
                    content_hashes[i]@,
                    *source,
                    *defaults,
                    extractor_version@,
                ),
            (x as nat, y as nat, w as nat, h as nat) == spec_content_rect(
                source.width as nat,
                source.height as nat,
                defaults.canvas_width as nat,
                defaults.canvas_height as nat,
            ),
    {
        let frame = &frames[index];
        let row = ManifestRow {
            frame_id: frame_id(index),
            frame_relpath: frame.frame_relpath.clone(),
            source_relpath: source.source_relpath.clone(),
            requested_ts_ms: frame.requested_ts_ms,
            actual_ts_ms: frame.actual_ts_ms,
            width: defaults.canvas_width,
            height: defaults.canvas_height,
            content_hash: content_hashes[index].clone(),
            source_width: source.width,
            source_height: source.height,
            content_rect_x: x,
            content_rect_y: y,
            content_rect_width: w,
            content_rect_height: h,
            extractor: String::from_str("avasset-image-generator"),
            extractor_version: String::from_str(extractor_version),
        };
        rows.push(row);
    }
    rows
}

/// The time between requested frames at `fps_numerator / fps_denominator`
/// frames per second, in milliseconds, to the nearest millisecond (halves up).
pub open spec fn spec_sampling_interval_ms(fps_numerator: nat, fps_denominator: nat) -> nat {
    ((2000 * fps_denominator + fps_numerator) / (2 * fps_numerator)) as nat
}

/// The sampling interval, in milliseconds, of a target frame rate of
/// `fps_numerator / fps_denominator` frames per second.
pub fn sampling_interval_ms(fps_numerator: u32, fps_denominator: u32) -> (ms: u64)
    requires
        fps_numerator > 0,
    ensures
        ms as nat == spec_sampling_interval_ms(fps_numerator as nat, fps_denominator as nat),
{
    let num = fps_numerator as u64;
    let den = fps_denominator as u64;
    (2000 * den + num) / (2 * num)
}

/// What `bundle.json` holds for a bundle with the given identity, producer and
/// source, extracted with `defaults`.
pub open spec fn spec_bundle_metadata_matches(
    b: BundleMetadata,
    bundle_id: Seq<char>,
    created_at_unix_ms: u128,
    producer_name: Seq<char>,
    producer_version: Seq<char>,
    defaults: ExtractDefaults,
    source: SourceVideoMetadata,
) -> bool {
    &&& b.format@ == "visual-bundle"@
    &&& b.format_version == 1
    &&& b.bundle_id@ == bundle_id
    &&& b.created_at@ == spec_rfc3339_utc(created_at_unix_ms as nat)
    &&& b.created_at_unix_ms == created_at_unix_ms
    &&& b.producer.name@ == producer_name
    &&& b.producer.version@ == producer_version
    &&& b.sampling == SamplingMetadata {
        requested_interval_ms: spec_sampling_interval_ms(
            defaults.target_fps_numerator as nat,
            defaults.target_fps_denominator as nat,
        ) as u64,
        tolerance_before_ms: defaults.tolerance_before_ms,
        tolerance_after_ms: defaults.tolerance_after_ms,
    }
    &&& b.image.format@ == "jpeg"@
    &&& b.image.canvas_width == defaults.canvas_width
    &&& b.image.canvas_height == defaults.canvas_height
    &&& b.image.fit_mode@ == "contain"@
    &&& b.image.padding@ == "black"@
    &&& b.source_video == source
}

/// Assembles the bundle-level metadata (`bundle.json`); the creation time is
/// recorded both as RFC 3339 UTC text and in milliseconds since the epoch.
pub fn bundle_metadata(
    bundle_id: String,
    created_at_unix_ms: u128,
    producer_name: &str,
    producer_version: &str,
    defaults: &ExtractDefaults,
    source: SourceVideoMetadata,
) -> (b: BundleMetadata)
    requires
        created_at_unix_ms < RFC3339_END_UNIX_MS,
        defaults.target_fps_numerator > 0,
    ensures
        spec_bundle_metadata_matches(
            b,
            bundle_id@,
            created_at_unix_ms,
            producer_name@,
            producer_version@,
            *defaults,
            source,
        ),
{
    BundleMetadata {
        format: String::from_str("visual-bundle"),
        format_version: 1,
        bundle_id,
        created_at: rfc3339_utc(created_at_unix_ms),
        created_at_unix_ms,
        producer: ProducerMetadata {
            name: String::from_str(producer_name),
            version: String::from_str(producer_version),
        },
        sampling: SamplingMetadata {
            requested_interval_ms: sampling_interval_ms(
                defaults.target_fps_numerator,
                defaults.target_fps_denominator,
            ),
            tolerance_before_ms: defaults.tolerance_before_ms,
            tolerance_after_ms: defaults.tolerance_after_ms,
        },
        image: ImageMetadata {
            format: String::from_str("jpeg"),
            canvas_width: defaults.canvas_width,
            canvas_height: defaults.canvas_height,
            fit_mode: String::from_str("contain"),
            padding: String::from_str("black"),
        },
        source_video: source,
    }
}

} // verus!

verus! {

/// Every frame of a bundle gets its own identifier: frames at different
/// positions never share a `frame_id`.
pub proof fn lemma_frame_ids_distinct(i: nat, j: nat)
    requires
        i != j,
    ensures
        spec_frame_id(i) != spec_frame_id(j),
{
    crate::text::lemma_formatting_injective(i + 1, j + 1, 6);
    reveal_strlit("frame_");
    if spec_frame_id(i) == spec_frame_id(j) {
        assert(spec_frame_id(i).skip(6) =~= spec_zero_padded(i + 1, 6));
        assert(spec_frame_id(j).skip(6) =~= spec_zero_padded(j + 1, 6));
    }
}

} // verus!

verus! {

/// A frame identifier reads back as its frame's 1-based number: `frame_`,
/// then decimal digits worth `index + 1`, exactly six of them while the
/// number has at most six digits.
pub proof fn lemma_frame_id_reads_back(index: nat)
    ensures
        spec_frame_id(index).take(6) == "frame_"@,
        crate::text::digits_value(spec_frame_id(index).skip(6), 10) == index + 1,
        index + 1 < 1000000 ==> spec_frame_id(index).len() == 12,
{
    reveal_strlit("frame_");
    let id = spec_frame_id(index);
    assert(id.take(6) =~= "frame_"@);
    assert(id.skip(6) =~= spec_zero_padded(index + 1, 6));
    crate::text::lemma_zero_padded_value(index + 1, 6);
    if index + 1 < 1000000 {
        assert(crate::text::pow10(6) == 1000000) by {
            reveal_with_fuel(crate::text::pow10, 7);
        }
        crate::text::lemma_zero_padded_exact(index + 1, 6);
    }
}

} // verus!
