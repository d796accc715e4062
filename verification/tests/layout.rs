use lifelog_compression::content_rect;

#[test]
fn content_rect_letterboxes_four_three_into_sixteen_nine() {
    let rect = content_rect(1920, 1440, 1920, 1080);
    assert_eq!(rect, (240, 0, 1440, 1080));
}

#[test]
fn content_rect_keeps_native_sixteen_nine_full_frame() {
    let rect = content_rect(1920, 1080, 1920, 1080);
    assert_eq!(rect, (0, 0, 1920, 1080));
}

#[test]
fn content_rect_pillarboxes_portrait_source() {
    // 1080 * 1080 / 1920 = 607.5, rounded half up to 608.
    assert_eq!(content_rect(1080, 1920, 1920, 1080), (656, 0, 608, 1080));
}

#[test]
fn content_rect_letterboxes_wide_source() {
    assert_eq!(content_rect(3840, 1080, 1920, 1080), (0, 270, 1920, 540));
}

#[test]
fn content_rect_scales_small_source_up() {
    assert_eq!(content_rect(640, 480, 1920, 1080), (240, 0, 1440, 1080));
}

#[test]
fn content_rect_heavy_clip_source() {
    // 2704x2028 is 4:3: 2704 * 1080 / 2028 = 1440.
    assert_eq!(content_rect(2704, 2028, 1920, 1080), (240, 0, 1440, 1080));
}

#[test]
fn content_rect_zero_sized_sources() {
    assert_eq!(content_rect(0, 0, 1920, 1080), (960, 540, 0, 0));
    assert_eq!(content_rect(0, 1080, 1920, 1080), (960, 0, 0, 1080));
    assert_eq!(content_rect(1920, 0, 1920, 1080), (0, 540, 1920, 0));
}

#[test]
fn content_rect_zero_canvas() {
    assert_eq!(content_rect(1920, 1080, 0, 0), (0, 0, 0, 0));
}

#[test]
fn content_rect_odd_leftover_puts_extra_pixel_after() {
    // 1000x999 into 1920x1080: height-limited, width 1081, leftover 839.
    let (x, y, w, h) = content_rect(1000, 999, 1920, 1080);
    assert_eq!((x, y, w, h), (419, 0, 1081, 1080));
    assert_eq!(1920 - (x + w), x + 1);
}

#[test]
fn content_rect_always_fits_and_keeps_aspect() {
    let sizes = [
        (1, 1),
        (1, 1000),
        (1000, 1),
        (1919, 1081),
        (2704, 2028),
        (4000, 3000),
        (u32::MAX, 1),
        (1, u32::MAX),
        (u32::MAX, u32::MAX),
    ];
    for &(sw, sh) in sizes.iter() {
        for &(cw, ch) in [(1920u32, 1080u32), (1280, 720), (7, 3), (u32::MAX, 2)].iter() {
            let (x, y, w, h) = content_rect(sw, sh, cw, ch);
            assert!(x as u64 + w as u64 <= cw as u64);
            assert!(y as u64 + h as u64 <= ch as u64);
            assert!(w == cw || h == ch);
            let (sw, sh, w, h) = (sw as u128, sh as u128, w as u128, h as u128);
            if cw as u128 * sh <= ch as u128 * sw {
                assert_eq!(w, cw as u128);
                let exact2 = 2 * sh * w;
                assert!(2 * sw * h <= exact2 + sw && exact2 < 2 * sw * h + sw);
            } else {
                assert_eq!(h, ch as u128);
                let exact2 = 2 * sw * h;
                assert!(2 * sh * w <= exact2 + sh && exact2 < 2 * sh * w + sh);
            }
        }
    }
}

#[test]
fn content_rect_depends_only_on_aspect_ratio() {
    for k in [1u32, 2, 3, 7, 1000] {
        assert_eq!(content_rect(4 * k, 3 * k, 1920, 1080), content_rect(4, 3, 1920, 1080));
        assert_eq!(content_rect(9 * k, 16 * k, 1280, 720), content_rect(9, 16, 1280, 720));
    }
}

#[test]
fn content_rect_same_aspect_fills_canvas() {
    assert_eq!(content_rect(1280, 720, 1920, 1080), (0, 0, 1920, 1080));
    assert_eq!(content_rect(3840, 2160, 1920, 1080), (0, 0, 1920, 1080));
}
