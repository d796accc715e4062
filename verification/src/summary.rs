use vstd::prelude::*;

use crate::model::ExtractDefaults;
use crate::text::{format_decimal, spec_decimal};

verus! {

/// The design summary of the bundle format for the given defaults.
pub open spec fn spec_design_summary(d: ExtractDefaults) -> Seq<char> {
    "Current visual-bundle v1 direction:\n\n- canonical representation: JPEG frames + JSONL manifest\n- canonical canvas: padded "@
        + spec_decimal(d.canvas_width as nat) + "x"@ + spec_decimal(d.canvas_height as nat)
        + "\n- cadence: "@ + spec_decimal(d.target_fps_numerator as nat) + "/"@
        + spec_decimal(d.target_fps_denominator as nat)
        + " fps\n- timestamp tolerance: -"@ + spec_decimal(d.tolerance_before_ms as nat)
        + "ms / +"@ + spec_decimal(d.tolerance_after_ms as nat)
        + "ms\n- preserve intrinsic source-video metadata\n- one input video -> one bundle -> one upload unit\n- optional packaging: single tar archive of the bundle\n\nSee:\n  - docs/visual-bundle-v1.md\n  - docs/technical-findings.md\n  - docs/benchmark-2026-03-30-real-workload.md\n"@
}

/// Writes the design summary of the bundle format: canvas, cadence and
/// timestamp tolerance from `defaults`, then the fixed design points.
pub fn design_summary(defaults: &ExtractDefaults) -> (s: String)
    ensures
        s@ == spec_design_summary(*defaults),
{
    let mut s = String::from_str(
        "Current visual-bundle v1 direction:\n\n- canonical representation: JPEG frames + JSONL manifest\n- canonical canvas: padded ",
    );
    s.append(format_decimal(defaults.canvas_width as u128).as_str());
    s.append("x");
    s.append(format_decimal(defaults.canvas_height as u128).as_str());
    s.append("\n- cadence: ");
    s.append(format_decimal(defaults.target_fps_numerator as u128).as_str());
    s.append("/");
    s.append(format_decimal(defaults.target_fps_denominator as u128).as_str());
    s.append(" fps\n- timestamp tolerance: -");
    s.append(format_decimal(defaults.tolerance_before_ms as u128).as_str());
    s.append("ms / +");
    s.append(format_decimal(defaults.tolerance_after_ms as u128).as_str());
    s.append(
        "ms\n- preserve intrinsic source-video metadata\n- one input video -> one bundle -> one upload unit\n- optional packaging: single tar archive of the bundle\n\nSee:\n  - docs/visual-bundle-v1.md\n  - docs/technical-findings.md\n  - docs/benchmark-2026-03-30-real-workload.md\n",
    );
    s
}

} // verus!
