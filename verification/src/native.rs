use vstd::prelude::*;

use crate::model::{ExtractDefaults, ExtractRequest};
use crate::text::{format_decimal, spec_decimal};

verus! {

/// `base` joined with a relative path `component`, as `Path::join` does it on
/// Unix: a `/` goes between them unless `base` is empty or already ends in one.
pub open spec fn spec_join(base: Seq<char>, component: Seq<char>) -> Seq<char> {
    if base.len() > 0 && base.last() != '/' {
        base + seq!['/'] + component
    } else {
        base + component
    }
}

/// Joins a relative path `component` onto `base`.
pub fn join_path(base: &str, component: &str) -> (p: String)
    ensures
        p@ == spec_join(base@, component@),
{
    let mut p = String::from_str(base);
    let len = base.unicode_len();
    if len > 0 && base.get_char(len - 1) != '/' {
        proof { reveal_strlit("/"); }
        p.append("/");
    }
    p.append(component);
    p
}

/// Where the source of the native extractor lives under the project directory.
pub open spec fn spec_helper_source_path(manifest_dir: Seq<char>) -> Seq<char> {
    spec_join(spec_join(manifest_dir, "swift"@), "apple_native_extract.swift"@)
}

/// Where the compiled native extractor is kept under the project directory.
pub open spec fn spec_helper_binary_path(manifest_dir: Seq<char>) -> Seq<char> {
    spec_join(spec_join(manifest_dir, "target"@), "apple-native-extractor"@)
}

/// The path of the native extractor's Swift source: `swift/apple_native_extract.swift`
/// under the project directory.
pub fn helper_source_path(manifest_dir: &str) -> (p: String)
    ensures
        p@ == spec_helper_source_path(manifest_dir@),
{
    let dir = join_path(manifest_dir, "swift");
    join_path(dir.as_str(), "apple_native_extract.swift")
}

/// The path of the compiled native extractor: `target/apple-native-extractor`
/// under the project directory.
pub fn helper_binary_path(manifest_dir: &str) -> (p: String)
    ensures
        p@ == spec_helper_binary_path(manifest_dir@),
{
    let dir = join_path(manifest_dir, "target");
    join_path(dir.as_str(), "apple-native-extractor")
}

/// Whether the native extractor must be (re)compiled: when no compiled binary
/// exists, or when its source changed after the binary was built.
pub fn needs_compile(binary_exists: bool, source_newer: bool) -> (b: bool)
    ensures
        b == (!binary_exists || source_newer),
{
    !binary_exists || source_newer
}

/// The arguments that compile the native extractor with optimisation.
pub fn swiftc_args(source: &str, binary: &str) -> (args: Vec<String>)
    ensures
        args.deep_view() == seq!["-O"@, source@, "-o"@, binary@],
{
    let mut args: Vec<String> = Vec::new();
    args.push(String::from_str("-O"));
    args.push(String::from_str(source));
    args.push(String::from_str("-o"));
    args.push(String::from_str(binary));
    assert(args.deep_view() =~= seq!["-O"@, source@, "-o"@, binary@]);
    args
}

/// The command line of the native extractor for one request.
pub open spec fn spec_native_extract_args(
    input: Seq<char>,
    output_dir: Seq<char>,
    interval_seconds: Seq<char>,
    defaults: ExtractDefaults,
) -> Seq<Seq<char>> {
    seq![
        "--input"@,
        input,
        "--output-dir"@,
        output_dir,
        "--interval-seconds"@,
        interval_seconds,
        "--tolerance-before-ms"@,
        spec_decimal(defaults.tolerance_before_ms as nat),
        "--tolerance-after-ms"@,
        spec_decimal(defaults.tolerance_after_ms as nat),
        "--canvas-width"@,
        spec_decimal(defaults.canvas_width as nat),
        "--canvas-height"@,
        spec_decimal(defaults.canvas_height as nat),
        "--jpeg-quality"@,
        "0.75"@,
    ]
}

/// Builds the native extractor's command line: input and output paths, the
/// sampling interval (already written out in seconds), the timestamp
/// tolerance, the canvas and the JPEG quality.
pub fn native_extract_args(
    request: &ExtractRequest,
    defaults: &ExtractDefaults,
    interval_seconds: &str,
) -> (args: Vec<String>)
    ensures
        args.deep_view() == spec_native_extract_args(
            request.input@,
            request.output_dir@,
            interval_seconds@,
            *defaults,
        ),
{
    let mut args: Vec<String> = Vec::new();
    args.push(String::from_str("--input"));
    args.push(request.input.clone());
    args.push(String::from_str("--output-dir"));
    args.push(request.output_dir.clone());
    args.push(String::from_str("--interval-seconds"));
    args.push(String::from_str(interval_seconds));
    args.push(String::from_str("--tolerance-before-ms"));
    args.push(format_decimal(defaults.tolerance_before_ms as u128));
    args.push(String::from_str("--tolerance-after-ms"));
    args.push(format_decimal(defaults.tolerance_after_ms as u128));
    args.push(String::from_str("--canvas-width"));
    args.push(format_decimal(defaults.canvas_width as u128));
    args.push(String::from_str("--canvas-height"));
    args.push(format_decimal(defaults.canvas_height as u128));
    args.push(String::from_str("--jpeg-quality"));
    args.push(String::from_str("0.75"));
    assert(args.deep_view() =~= spec_native_extract_args(
        request.input@,
        request.output_dir@,
        interval_seconds@,
        *defaults,
    ));
    args
}

} // verus!

verus! {

/// How a finished `swiftc` run ends the compile step: success, or the
/// compiler's error output under `swiftc failed: `.
pub fn swiftc_outcome(success: bool, stderr: &str) -> (r: Result<(), String>)
    ensures
        r is Ok <==> success,
        r matches Err(msg) ==> msg@ == "swiftc failed: "@ + stderr@,
{
    if success {
        Ok(())
    } else {
        let mut msg = String::from_str("swiftc failed: ");
        msg.append(stderr);
        Err(msg)
    }
}

/// How a finished native-extractor run ends the extraction step: success, or
/// the extractor's error output under `native extractor failed: `.
pub fn native_extract_outcome(success: bool, stderr: &str) -> (r: Result<(), String>)
    ensures
        r is Ok <==> success,
        r matches Err(msg) ==> msg@ == "native extractor failed: "@ + stderr@,
{
    if success {
        Ok(())
    } else {
        let mut msg = String::from_str("native extractor failed: ");
        msg.append(stderr);
        Err(msg)
    }
}

} // verus!

verus! {

/// The helper paths sit under the project directory as `Path::join` places
/// them: one `/` between the directory and the relative path, none added when
/// the directory is empty or already ends in `/`.
pub proof fn lemma_helper_paths_under_project(dir: Seq<char>)
    ensures
        dir.len() > 0 && dir.last() != '/' ==> {
            &&& spec_helper_source_path(dir) == dir + "/swift/apple_native_extract.swift"@
            &&& spec_helper_binary_path(dir) == dir + "/target/apple-native-extractor"@
        },
        !(dir.len() > 0 && dir.last() != '/') ==> {
            &&& spec_helper_source_path(dir) == dir + "swift/apple_native_extract.swift"@
            &&& spec_helper_binary_path(dir) == dir + "target/apple-native-extractor"@
        },
{
    reveal_strlit("swift");
    reveal_strlit("target");
    reveal_strlit("apple_native_extract.swift");
    reveal_strlit("apple-native-extractor");
    reveal_strlit("/swift/apple_native_extract.swift");
    reveal_strlit("/target/apple-native-extractor");
    reveal_strlit("swift/apple_native_extract.swift");
    reveal_strlit("target/apple-native-extractor");
    let s1 = spec_join(dir, "swift"@);
    let t1 = spec_join(dir, "target"@);
    assert(s1.len() > 0 && s1.last() != '/');
    assert(t1.len() > 0 && t1.last() != '/');
    if dir.len() > 0 && dir.last() != '/' {
        assert(spec_helper_source_path(dir) =~= dir + "/swift/apple_native_extract.swift"@);
        assert(spec_helper_binary_path(dir) =~= dir + "/target/apple-native-extractor"@);
    } else {
        assert(spec_helper_source_path(dir) =~= dir + "swift/apple_native_extract.swift"@);
        assert(spec_helper_binary_path(dir) =~= dir + "target/apple-native-extractor"@);
    }
}

} // verus!
