use vstd::prelude::*;

verus! {

/// The rectangle that a source frame of `source_width` x `source_height`
/// occupies once it is scaled to fit inside a canvas of
/// `canvas_width` x `canvas_height` (aspect ratio kept, result rounded half up,
/// then centred with padding on the remaining side).
///
/// The tuple is `(x, y, width, height)`.
pub open spec fn spec_content_rect(
    source_width: nat,
    source_height: nat,
    canvas_width: nat,
    canvas_height: nat,
) -> (nat, nat, nat, nat) {
    let (w, h) = spec_fitted_size(source_width, source_height, canvas_width, canvas_height);
    (((canvas_width - w) / 2) as nat, ((canvas_height - h) / 2) as nat, w, h)
}

/// Nearest integer to `num / den`, halves rounded up (`den > 0`).
pub open spec fn round_div(num: nat, den: nat) -> nat
    recommends
        den > 0,
{
    ((2 * num + den) / (2 * den)) as nat
}

/// Whether the width is the limiting side: `cw / sw <= ch / sh`.
pub open spec fn width_limited(sw: nat, sh: nat, cw: nat, ch: nat) -> bool {
    cw * sh <= ch * sw
}

/// Size of the scaled source: the scale factor is the smaller of
/// `cw / sw` and `ch / sh`; a zero source side contributes no limit.
pub open spec fn spec_fitted_size(sw: nat, sh: nat, cw: nat, ch: nat) -> (nat, nat) {
    if sw == 0 && sh == 0 {
        (0, 0)
    } else if sw == 0 {
        (0, ch)
    } else if sh == 0 {
        (cw, 0)
    } else if width_limited(sw, sh, cw, ch) {
        (cw, round_div(sh * cw, sw))
    } else {
        (round_div(sw * ch, sh), ch)
    }
}

/// Scale a source frame to fit inside the canvas, keeping its aspect ratio,
/// and centre it: returns `(x, y, width, height)` of the content inside the
/// canvas. The bars left over on either side are padding.
pub fn content_rect(
    source_width: u32,
    source_height: u32,
    canvas_width: u32,
    canvas_height: u32,
) -> (rect: (u32, u32, u32, u32))
    ensures
        (rect.0 as nat, rect.1 as nat, rect.2 as nat, rect.3 as nat) == spec_content_rect(
            source_width as nat,
            source_height as nat,
            canvas_width as nat,
            canvas_height as nat,
        ),
{
    let sw = source_width as u128;
    let sh = source_height as u128;
    let cw = canvas_width as u128;
    let ch = canvas_height as u128;
    assert(cw * sh <= 0xffff_ffff * 0xffff_ffff) by (nonlinear_arith)
        requires cw <= 0xffff_ffff, sh <= 0xffff_ffff;
    assert(ch * sw <= 0xffff_ffff * 0xffff_ffff) by (nonlinear_arith)
        requires ch <= 0xffff_ffff, sw <= 0xffff_ffff;
    let (w, h): (u32, u32) = if source_width == 0 && source_height == 0 {
        (0, 0)
    } else if source_width == 0 {
        (0, canvas_height)
    } else if source_height == 0 {
        (canvas_width, 0)
    } else if cw * sh <= ch * sw {
        let num = 2 * (sh * cw) + sw;
        let h = num / (2 * sw);
        assert(h <= ch) by (nonlinear_arith)
            requires h == (2 * (sh * cw) + sw) / (2 * sw), cw * sh <= ch * sw, sw > 0;
        (canvas_width, h as u32)
    } else {
        let num = 2 * (sw * ch) + sh;
        let w = num / (2 * sh);
        assert(w <= cw) by (nonlinear_arith)
            requires w == (2 * (sw * ch) + sh) / (2 * sh), !(cw * sh <= ch * sw), sh > 0;
        (w as u32, canvas_height)
    };
    ((canvas_width - w) / 2, (canvas_height - h) / 2, w, h)
}

} // verus!

verus! {

proof fn lemma_round_div_bounds(num: nat, den: nat)
    requires
        den > 0,
    ensures
        2 * den * round_div(num, den) <= 2 * num + den,
        2 * num + den < 2 * den * round_div(num, den) + 2 * den,
{
    let q = (2 * num + den) / (2 * den);
    vstd::arithmetic::div_mod::lemma_fundamental_div_mod((2 * num + den) as int, (2 * den) as int);
    vstd::arithmetic::div_mod::lemma_mod_bound((2 * num + den) as int, (2 * den) as int);
    assert(q >= 0) by {
        vstd::arithmetic::div_mod::lemma_div_pos_is_pos((2 * num + den) as int, (2 * den) as int);
    }
}

/// The content never leaves the canvas: `x + width <= canvas_width` and
/// `y + height <= canvas_height`, for every source and canvas size.
pub proof fn lemma_content_fits_canvas(sw: nat, sh: nat, cw: nat, ch: nat)
    ensures
        ({
            let (x, y, w, h) = spec_content_rect(sw, sh, cw, ch);
            x + w <= cw && y + h <= ch
        }),
{
    lemma_fitted_within(sw, sh, cw, ch);
}

proof fn lemma_fitted_within(sw: nat, sh: nat, cw: nat, ch: nat)
    ensures
        spec_fitted_size(sw, sh, cw, ch).0 <= cw,
        spec_fitted_size(sw, sh, cw, ch).1 <= ch,
{
    if sw > 0 && sh > 0 {
        if width_limited(sw, sh, cw, ch) {
            let h = round_div(sh * cw, sw);
            lemma_round_div_bounds(sh * cw, sw);
            assert(h <= ch) by (nonlinear_arith)
                requires
                    2 * sw * h <= 2 * (sh * cw) + sw,
                    cw * sh <= ch * sw,
                    sw > 0,
            ;
        } else {
            let w = round_div(sw * ch, sh);
            lemma_round_div_bounds(sw * ch, sh);
            assert(w <= cw) by (nonlinear_arith)
                requires
                    2 * sh * w <= 2 * (sw * ch) + sh,
                    !(cw * sh <= ch * sw),
                    sh > 0,
            ;
        }
    }
}

/// The padding is split evenly: the bar after the content is as wide as the
/// bar before it, or one pixel wider when the leftover is odd.
pub proof fn lemma_content_centred(sw: nat, sh: nat, cw: nat, ch: nat)
    ensures
        ({
            let (x, y, w, h) = spec_content_rect(sw, sh, cw, ch);
            &&& cw - (x + w) == x || cw - (x + w) == x + 1
            &&& ch - (y + h) == y || ch - (y + h) == y + 1
        }),
{
    lemma_fitted_within(sw, sh, cw, ch);
}

/// A source with both sides non-zero fills the canvas along its limiting side
/// (letterbox or pillarbox, never both), and the other side is the nearest
/// integer to the exactly scaled length (halves rounded up).
pub proof fn lemma_content_keeps_aspect(sw: nat, sh: nat, cw: nat, ch: nat)
    requires
        sw > 0,
        sh > 0,
    ensures
        ({
            let (x, y, w, h) = spec_content_rect(sw, sh, cw, ch);
            &&& width_limited(sw, sh, cw, ch) ==> {
                &&& x == 0 && w == cw
                &&& 2 * sw * h <= 2 * sh * cw + sw
                &&& 2 * sh * cw < 2 * sw * h + sw
            }
            &&& !width_limited(sw, sh, cw, ch) ==> {
                &&& y == 0 && h == ch
                &&& 2 * sh * w <= 2 * sw * ch + sh
                &&& 2 * sw * ch < 2 * sh * w + sh
            }
        }),
{
    if width_limited(sw, sh, cw, ch) {
        lemma_round_div_bounds(sh * cw, sw);
        assert(2 * sh * cw == 2 * (sh * cw)) by (nonlinear_arith);
    } else {
        lemma_round_div_bounds(sw * ch, sh);
        assert(2 * sw * ch == 2 * (sw * ch)) by (nonlinear_arith);
    }
}

/// A source whose aspect ratio equals the canvas's fills the whole canvas.
pub proof fn lemma_same_aspect_fills_canvas(sw: nat, sh: nat, cw: nat, ch: nat)
    requires
        sw > 0,
        sh > 0,
        cw * sh == ch * sw,
    ensures
        spec_content_rect(sw, sh, cw, ch) == (0nat, 0nat, cw, ch),
{
    lemma_round_div_bounds(sh * cw, sw);
    let h = round_div(sh * cw, sw);
    assert(h == ch) by (nonlinear_arith)
        requires
            2 * sw * h <= 2 * (sh * cw) + sw,
            2 * (sh * cw) + sw < 2 * sw * h + 2 * sw,
            cw * sh == ch * sw,
            sw > 0,
    ;
}

} // verus!

verus! {

proof fn lemma_round_div_common_factor(num: nat, den: nat, k: nat)
    requires
        den > 0,
        k > 0,
    ensures
        round_div(k * num, k * den) == round_div(num, den),
{
    let a = 2 * num + den;
    assert(2 * (k * num) + k * den == k * a) by (nonlinear_arith)
        requires
            a == 2 * num + den,
    ;
    assert(2 * (k * den) == k * (2 * den)) by (nonlinear_arith);
    vstd::arithmetic::div_mod::lemma_div_denominator((k * a) as int, k as int, (2 * den) as int);
    vstd::arithmetic::div_mod::lemma_div_multiples_vanish(a as int, k as int);
}

/// The content rectangle depends only on the source's aspect ratio: scaling
/// both source sides by the same factor does not change it.
pub proof fn lemma_content_depends_on_aspect_only(sw: nat, sh: nat, cw: nat, ch: nat, k: nat)
    requires
        k > 0,
    ensures
        spec_content_rect(k * sw, k * sh, cw, ch) == spec_content_rect(sw, sh, cw, ch),
{
    assert(k * sw == 0 <==> sw == 0) by (nonlinear_arith) requires k > 0;
    assert(k * sh == 0 <==> sh == 0) by (nonlinear_arith) requires k > 0;
    if sw > 0 && sh > 0 {
        assert(width_limited(k * sw, k * sh, cw, ch) == width_limited(sw, sh, cw, ch))
            by (nonlinear_arith)
            requires
                k > 0,
        {
            assert(cw * (k * sh) == k * (cw * sh));
            assert(ch * (k * sw) == k * (ch * sw));
        }
        assert((k * sh) * cw == k * (sh * cw)) by (nonlinear_arith);
        assert((k * sw) * ch == k * (sw * ch)) by (nonlinear_arith);
        lemma_round_div_common_factor(sh * cw, sw, k);
        lemma_round_div_common_factor(sw * ch, sh, k);
    }
}

} // verus!
