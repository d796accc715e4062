use lifelog_compression::{
    design_summary, helper_binary_path, helper_source_path, join_path, native_extract_args,
    native_extract_outcome, needs_compile, path_components, same_path, swiftc_args,
    swiftc_outcome, ExtractDefaults, ExtractRequest, ExtractResult,
};
use std::path::Path;

#[test]
fn join_path_matches_std_join() {
    for base in ["/proj", "/proj/", "", "rel/dir", "/"] {
        for component in ["swift", "target", "a/b.swift"] {
            let expected = Path::new(base).join(component);
            assert_eq!(join_path(base, component), expected.to_str().unwrap());
        }
    }
}

#[test]
fn helper_paths_live_under_project_dir() {
    assert_eq!(helper_source_path("/proj"), "/proj/swift/apple_native_extract.swift");
    assert_eq!(helper_binary_path("/proj/"), "/proj/target/apple-native-extractor");
    assert_eq!(helper_source_path(""), "swift/apple_native_extract.swift");
}

#[test]
fn needs_compile_when_missing_or_stale() {
    assert!(needs_compile(false, false));
    assert!(needs_compile(false, true));
    assert!(needs_compile(true, true));
    assert!(!needs_compile(true, false));
}

#[test]
fn swiftc_args_compile_optimised() {
    assert_eq!(swiftc_args("a.swift", "out/bin"), vec!["-O", "a.swift", "-o", "out/bin"]);
}

#[test]
fn native_extract_args_carry_request_and_defaults() {
    let request = ExtractRequest::new("in.mp4", "out");
    let args = native_extract_args(&request, &ExtractDefaults::default(), "1");
    assert_eq!(
        args,
        vec![
            "--input",
            "in.mp4",
            "--output-dir",
            "out",
            "--interval-seconds",
            "1",
            "--tolerance-before-ms",
            "500",
            "--tolerance-after-ms",
            "500",
            "--canvas-width",
            "1920",
            "--canvas-height",
            "1080",
            "--jpeg-quality",
            "0.75",
        ]
    );
}

#[test]
fn extract_request_holds_its_paths() {
    let r = ExtractRequest::new("in.mp4", "out");
    assert_eq!(r.input, "in.mp4");
    assert_eq!(r.output_dir, "out");
    assert_eq!(r, ExtractRequest::new("in.mp4", "out"));
    assert_ne!(r, ExtractRequest::new("in.mp4", "other"));
    assert_eq!(r, ExtractRequest::new("in.mp4", "out/"));
}

#[test]
fn extract_result_equality_compares_fields() {
    let a = ExtractResult { bundle_dir: "out".to_string(), frame_count: 3 };
    assert_eq!(a, ExtractResult { bundle_dir: "out".to_string(), frame_count: 3 });
    assert_ne!(a, ExtractResult { bundle_dir: "out".to_string(), frame_count: 4 });
    assert_eq!(a, ExtractResult { bundle_dir: "out//".to_string(), frame_count: 3 });
    assert_ne!(a, ExtractResult { bundle_dir: "/out".to_string(), frame_count: 3 });
}

#[test]
fn extract_request_compares_paths_not_text() {
    let r = ExtractRequest::new("clips/a.mp4", "out");
    assert_eq!(r, ExtractRequest::new("clips//a.mp4", "out/"));
    assert_eq!(r, ExtractRequest::new("clips/./a.mp4", "out/."));
    assert_ne!(r, ExtractRequest::new("./clips/a.mp4", "out"));
}

#[test]
fn path_components_match_std() {
    let paths = [
        "", "/", "//", ".", "./", "./a", "a", "a/", "a//b", "a/./b", "a/../b", "/a/b/",
        "/./a", "..", "../a", ".a", "a/.", "a/.b", "x/./", "/..",
    ];
    for p in paths.iter() {
        let expected: Vec<String> = std::path::Path::new(p)
            .components()
            .map(|c| c.as_os_str().to_str().unwrap().to_string())
            .collect();
        assert_eq!(path_components(p), expected, "components of {:?}", p);
    }
    for a in paths.iter() {
        for b in paths.iter() {
            assert_eq!(same_path(a, b), Path::new(a) == Path::new(b), "{:?} vs {:?}", a, b);
        }
    }
}

#[test]
fn process_outcomes_report_stderr() {
    assert_eq!(swiftc_outcome(true, "ignored"), Ok(()));
    assert_eq!(swiftc_outcome(false, "boom"), Err("swiftc failed: boom".to_string()));
    assert_eq!(native_extract_outcome(true, ""), Ok(()));
    assert_eq!(
        native_extract_outcome(false, "no such file"),
        Err("native extractor failed: no such file".to_string())
    );
}

#[test]
fn design_summary_names_defaults() {
    let d = ExtractDefaults::default();
    let expected = format!(
        r#"Current visual-bundle v1 direction:

- canonical representation: JPEG frames + JSONL manifest
- canonical canvas: padded {w}x{h}
- cadence: {fps_num}/{fps_den} fps
- timestamp tolerance: -{tb}ms / +{ta}ms
- preserve intrinsic source-video metadata
- one input video -> one bundle -> one upload unit
- optional packaging: single tar archive of the bundle

See:
  - docs/visual-bundle-v1.md
  - docs/technical-findings.md
  - docs/benchmark-2026-03-30-real-workload.md
"#,
        w = d.canvas_width,
        h = d.canvas_height,
        fps_num = d.target_fps_numerator,
        fps_den = d.target_fps_denominator,
        tb = d.tolerance_before_ms,
        ta = d.tolerance_after_ms,
    );
    assert_eq!(design_summary(&d), expected);
    assert!(design_summary(&d).contains("padded 1920x1080"));
}
