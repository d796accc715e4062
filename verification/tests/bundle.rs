use lifelog_compression::{
    bundle_id, content_hash, format_hex_bytes, rfc3339_utc, sampling_interval_ms,
    RFC3339_END_UNIX_MS, bundle_id_from_clock, bundle_metadata, frame_manifest, manifest_rows,
    source_metadata, validate_input, ExtractDefaults, ImageFormat, NativeFrameRecord,
    NativeSourceVideoMetadata,
};

fn native_source(width: u32, height: u32) -> NativeSourceVideoMetadata {
    NativeSourceVideoMetadata {
        file_size_bytes: 123_456,
        container_format: "mov".to_string(),
        video_codec: "hevc".to_string(),
        duration_ms: 3_000,
        width,
        height,
        display_width: width,
        display_height: height,
        avg_frame_rate: "24/1".to_string(),
        rotation_degrees: 90,
        creation_time: Some("2026-03-30T12:00:00Z".to_string()),
        timecode: None,
        has_audio: true,
    }
}

fn frame(relpath: &str, requested: u64, actual: u64) -> NativeFrameRecord {
    NativeFrameRecord {
        frame_relpath: relpath.to_string(),
        requested_ts_ms: requested,
        actual_ts_ms: actual,
    }
}

#[test]
fn defaults_are_one_fps_padded_full_hd_jpeg() {
    let d = ExtractDefaults::default();
    assert_eq!(d.target_fps_numerator, 1);
    assert_eq!(d.target_fps_denominator, 1);
    assert_eq!(d.canvas_width, 1920);
    assert_eq!(d.canvas_height, 1080);
    assert_eq!(d.tolerance_before_ms, 500);
    assert_eq!(d.tolerance_after_ms, 500);
    assert_eq!(d.image_format, ImageFormat::Jpeg);
}

#[test]
fn validate_input_reports_missing_path() {
    assert_eq!(
        validate_input("clips/a.mp4", false, false),
        Err("input does not exist: clips/a.mp4".to_string())
    );
}

#[test]
fn validate_input_reports_non_file() {
    assert_eq!(
        validate_input("clips", true, false),
        Err("input is not a file: clips".to_string())
    );
}

#[test]
fn validate_input_accepts_file() {
    assert_eq!(validate_input("clips/a.mp4", true, true), Ok(()));
}

#[test]
fn source_metadata_records_input_path() {
    let s = source_metadata("DCIM/100GOPRO/GX010046.MP4", native_source(1920, 1440));
    assert_eq!(s.source_relpath, "DCIM/100GOPRO/GX010046.MP4");
    assert_eq!(s.file_size_bytes, 123_456);
    assert_eq!(s.container_format, "mov");
    assert_eq!(s.video_codec, "hevc");
    assert_eq!(s.duration_ms, 3_000);
    assert_eq!((s.width, s.height), (1920, 1440));
    assert_eq!(s.avg_frame_rate, "24/1");
    assert_eq!(s.rotation_degrees, 90);
    assert_eq!(s.creation_time.as_deref(), Some("2026-03-30T12:00:00Z"));
    assert_eq!(s.timecode, None);
    assert!(s.has_audio);
}

#[test]
fn manifest_rows_follow_frames_in_order() {
    let source = source_metadata("in.mp4", native_source(1920, 1440));
    let frames = vec![
        frame("frames/00000001.jpg", 0, 12),
        frame("frames/00000002.jpg", 1000, 1001),
    ];
    let hashes = vec!["sha256:aa".to_string(), "sha256:bb".to_string()];
    let rows = manifest_rows(&frames, &hashes, &source, &ExtractDefaults::default(), "0.1.0");
    assert_eq!(rows.len(), 2);
    assert_eq!(rows[0].frame_id, "frame_000001");
    assert_eq!(rows[1].frame_id, "frame_000002");
    assert_eq!(rows[0].content_hash, "sha256:aa");
    assert_eq!(rows[1].content_hash, "sha256:bb");
    assert_eq!(rows[1].frame_relpath, "frames/00000002.jpg");
    assert_eq!(rows[1].source_relpath, "in.mp4");
    assert_eq!((rows[0].requested_ts_ms, rows[0].actual_ts_ms), (0, 12));
    assert_eq!((rows[1].requested_ts_ms, rows[1].actual_ts_ms), (1000, 1001));
    for row in rows.iter() {
        assert_eq!((row.width, row.height), (1920, 1080));
        assert_eq!((row.source_width, row.source_height), (1920, 1440));
        assert_eq!(
            (row.content_rect_x, row.content_rect_y, row.content_rect_width, row.content_rect_height),
            (240, 0, 1440, 1080)
        );
        assert_eq!(row.extractor, "avasset-image-generator");
        assert_eq!(row.extractor_version, "0.1.0");
    }
}

#[test]
fn manifest_rows_of_no_frames() {
    let source = source_metadata("in.mp4", native_source(1920, 1080));
    let rows = manifest_rows(&Vec::new(), &Vec::new(), &source, &ExtractDefaults::default(), "0.1.0");
    assert!(rows.is_empty());
}

#[test]
fn bundle_metadata_records_sampling_and_image() {
    let source = source_metadata("in.mp4", native_source(1920, 1080));
    let b = bundle_metadata(
        "vb_ff".to_string(),
        1_774_872_000_000,
        "lifelog-compression",
        "0.1.0",
        &ExtractDefaults::default(),
        source,
    );
    assert_eq!(b.format, "visual-bundle");
    assert_eq!(b.format_version, 1);
    assert_eq!(b.bundle_id, "vb_ff");
    assert_eq!(b.created_at_unix_ms, 1_774_872_000_000);
    assert_eq!(b.created_at, "2026-03-30T12:00:00Z");
    assert_eq!(b.producer.name, "lifelog-compression");
    assert_eq!(b.producer.version, "0.1.0");
    assert_eq!(b.sampling.requested_interval_ms, 1000);
    let mut half_fps = ExtractDefaults::default();
    half_fps.target_fps_denominator = 2;
    let source = source_metadata("in.mp4", native_source(1920, 1080));
    let b2 = bundle_metadata("vb_0".to_string(), 0, "p", "v", &half_fps, source);
    assert_eq!(b2.sampling.requested_interval_ms, 2000);
    assert_eq!(b.sampling.tolerance_before_ms, 500);
    assert_eq!(b.sampling.tolerance_after_ms, 500);
    assert_eq!(b.image.format, "jpeg");
    assert_eq!((b.image.canvas_width, b.image.canvas_height), (1920, 1080));
    assert_eq!(b.image.fit_mode, "contain");
    assert_eq!(b.image.padding, "black");
    assert_eq!(b.source_video.source_relpath, "in.mp4");
}

#[test]
fn bundle_id_from_clock_writes_hex_millis() {
    let (id, ms) = bundle_id_from_clock(Ok(0x18e2a3b4c5d)).unwrap();
    assert_eq!(id, "vb_18e2a3b4c5d");
    assert_eq!(ms, 0x18e2a3b4c5d);
    assert_eq!(bundle_id_from_clock(Ok(0)).unwrap().0, "vb_0");
}

#[test]
fn bundle_id_from_clock_reports_clock_before_epoch() {
    assert_eq!(
        bundle_id_from_clock(Err("second time provided was later than self".to_string())),
        Err("system clock before unix epoch: second time provided was later than self".to_string())
    );
}

#[test]
fn bundle_id_reads_the_current_time() {
    let (id, ms) = bundle_id().unwrap();
    // Later than 2024-01-01T00:00:00Z.
    assert!(ms > 1_704_067_200_000);
    assert_eq!(id, format!("vb_{ms:x}"));
}

#[test]
fn bundle_ids_differ_for_different_times() {
    let a = bundle_id_from_clock(Ok(1_704_067_200_000)).unwrap().0;
    let b = bundle_id_from_clock(Ok(1_704_067_200_001)).unwrap().0;
    assert_ne!(a, b);
}

#[test]
fn frame_manifest_writes_one_line_per_row() {
    let rows = vec![b"{\"frame_id\":\"frame_000001\"}".to_vec(), b"{}".to_vec()];
    let out = frame_manifest(&rows);
    assert_eq!(out, b"{\"frame_id\":\"frame_000001\"}\n{}\n".to_vec());
    let lines: Vec<&[u8]> = out.split(|b| *b == b'\n').collect();
    assert_eq!(lines.len(), 3);
    assert_eq!(lines[0], rows[0].as_slice());
    assert_eq!(lines[1], rows[1].as_slice());
    assert!(lines[2].is_empty());
}

#[test]
fn frame_manifest_of_no_rows_is_empty() {
    assert!(frame_manifest(&Vec::new()).is_empty());
}

#[test]
fn rfc3339_utc_writes_calendar_time() {
    assert_eq!(rfc3339_utc(0), "1970-01-01T00:00:00Z");
    assert_eq!(rfc3339_utc(999), "1970-01-01T00:00:00Z");
    assert_eq!(rfc3339_utc(1_774_872_000_000), "2026-03-30T12:00:00Z");
    // 2000 is a leap year, 1900 was not, 2100 will not be.
    assert_eq!(rfc3339_utc(951_782_400_000), "2000-02-29T00:00:00Z");
    assert_eq!(rfc3339_utc(951_868_799_000), "2000-02-29T23:59:59Z");
    assert_eq!(rfc3339_utc(4_107_542_400_000), "2100-03-01T00:00:00Z");
    assert_eq!(rfc3339_utc(1_704_067_199_999), "2023-12-31T23:59:59Z");
    assert_eq!(rfc3339_utc(RFC3339_END_UNIX_MS - 1), "9999-12-31T23:59:59Z");
}

#[test]
fn content_hash_is_sha256_hex() {
    assert_eq!(
        content_hash(b""),
        "sha256:e3b0c44298fc1c149afbf4c8996fb92427ae41e4649b934ca495991b7852b855"
    );
    assert_eq!(
        content_hash(b"abc"),
        "sha256:ba7816bf8f01cfea414140de5dae2223b00361a396177a9cb410ff61f20015ad"
    );
}

#[test]
fn format_hex_bytes_two_digits_per_byte() {
    assert_eq!(format_hex_bytes(&[0x00, 0x0f, 0xa0, 0xff]), "000fa0ff");
    assert_eq!(format_hex_bytes(&[]), "");
}

#[test]
fn sampling_interval_follows_frame_rate() {
    assert_eq!(sampling_interval_ms(1, 1), 1000);
    assert_eq!(sampling_interval_ms(1, 2), 2000);
    assert_eq!(sampling_interval_ms(2, 1), 500);
    assert_eq!(sampling_interval_ms(3, 1), 333);
    assert_eq!(sampling_interval_ms(3, 2), 667);
    assert_eq!(sampling_interval_ms(30000, 1001), 33);
}
