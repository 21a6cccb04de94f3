use scaleable_viewport::{
    AspectRatioError, AspectRatioMode, Dim2, ScaleableViewport, ViewportPlugin, ViewportRect,
};

fn d(x: u32, y: u32) -> Dim2 {
    Dim2::new(x, y)
}

fn map(window: Dim2, ratio: Dim2, mode: AspectRatioMode) -> Dim2 {
    ViewportPlugin::get_new_resolution(window, ratio, &mode)
}

fn rect(pos: Dim2, size: Dim2) -> ViewportRect {
    ViewportRect { physical_position: pos, physical_size: size }
}

#[test]
fn from_resolution_reduces_full_hd() {
    let v = ScaleableViewport::from_resolution(d(1920, 1080), AspectRatioMode::Keep);
    assert_eq!(v.aspect_ratio, d(16, 9));
    assert_eq!(v.aspect_ratio_mode, AspectRatioMode::Keep);
}

#[test]
fn from_resolution_reduces_4k() {
    let v = ScaleableViewport::from_resolution(d(3840, 2160), AspectRatioMode::Keep);
    assert_eq!(v.aspect_ratio, d(16, 9));
}

#[test]
fn from_resolution_coprime_kept() {
    let v = ScaleableViewport::from_resolution(d(7, 5), AspectRatioMode::Scale);
    assert_eq!(v.aspect_ratio, d(7, 5));
    assert_eq!(v.aspect_ratio_mode, AspectRatioMode::Scale);
}

#[test]
fn from_ratio_stores_verbatim() {
    let v = ScaleableViewport::from_ratio(d(32, 18), AspectRatioMode::KeepWidth);
    assert_eq!(v.aspect_ratio, d(32, 18));
    assert_eq!(v.aspect_ratio_mode, AspectRatioMode::KeepWidth);
}

#[test]
fn try_from_ratio_rejects_zero_components() {
    assert_eq!(
        ScaleableViewport::try_from_ratio(d(0, 9), AspectRatioMode::Keep),
        Err(AspectRatioError::ZeroWidth)
    );
    assert_eq!(
        ScaleableViewport::try_from_ratio(d(16, 0), AspectRatioMode::Keep),
        Err(AspectRatioError::ZeroHeight)
    );
    assert_eq!(
        ScaleableViewport::try_from_ratio(d(0, 0), AspectRatioMode::Scale),
        Err(AspectRatioError::ZeroWidth)
    );
    assert_eq!(
        ScaleableViewport::try_from_ratio(d(32, 18), AspectRatioMode::Keep),
        Ok(ScaleableViewport::from_ratio(d(32, 18), AspectRatioMode::Keep))
    );
}

#[test]
fn try_from_resolution_rejects_zero_components() {
    assert_eq!(
        ScaleableViewport::try_from_resolution(d(0, 0), AspectRatioMode::Keep),
        Err(AspectRatioError::ZeroWidth)
    );
    assert_eq!(
        ScaleableViewport::try_from_resolution(d(1920, 0), AspectRatioMode::Keep),
        Err(AspectRatioError::ZeroHeight)
    );
    let v = ScaleableViewport::try_from_resolution(d(1920, 1080), AspectRatioMode::KeepHeight)
        .unwrap();
    assert_eq!(v.aspect_ratio, d(16, 9));
    assert_eq!(v.aspect_ratio_mode, AspectRatioMode::KeepHeight);
}

#[test]
fn scale_returns_window() {
    assert_eq!(map(d(1234, 567), d(16, 9), AspectRatioMode::Scale), d(1234, 567));
    assert_eq!(map(d(1, 1), d(4, 3), AspectRatioMode::Scale), d(1, 1));
    assert_eq!(map(d(640, 480), d(21, 9), AspectRatioMode::Scale), d(640, 480));
}

#[test]
fn keep_pillarbox_in_wide_window() {
    assert_eq!(map(d(1000, 500), d(1, 1), AspectRatioMode::Keep), d(500, 500));
    assert_eq!(map(d(2560, 1080), d(16, 9), AspectRatioMode::Keep), d(1920, 1080));
}

#[test]
fn keep_letterbox_in_tall_window() {
    assert_eq!(map(d(800, 800), d(16, 9), AspectRatioMode::Keep), d(800, 450));
    // 1000 * 9 / 16 = 562.5, rounded away from zero
    assert_eq!(map(d(1000, 1000), d(16, 9), AspectRatioMode::Keep), d(1000, 563));
}

#[test]
fn keep_exact_ratio_fills_window() {
    assert_eq!(map(d(800, 600), d(4, 3), AspectRatioMode::Keep), d(800, 600));
    let r = ViewportPlugin::viewport_for(
        d(800, 600),
        &ScaleableViewport::from_ratio(d(4, 3), AspectRatioMode::Keep),
    );
    assert_eq!(r, rect(d(0, 0), d(800, 600)));
}

#[test]
fn keep_stays_inside_window_and_close_to_ratio() {
    let windows = [(1, 1), (3, 7), (1920, 1080), (1081, 1919), (333, 1000), (4096, 17)];
    let ratios = [(1, 1), (16, 9), (4, 3), (21, 9), (3, 7), (1, 1000)];
    for &(w, h) in windows.iter() {
        for &(rx, ry) in ratios.iter() {
            let s = map(d(w, h), d(rx, ry), AspectRatioMode::Keep);
            assert!(s.x <= w && s.y <= h);
            let err = s.x as i64 * ry as i64 - s.y as i64 * rx as i64;
            let ok_pillar = s.y == h && 2 * err.abs() <= ry as i64;
            let ok_letter = s.x == w && 2 * err.abs() <= rx as i64;
            assert!(ok_pillar || ok_letter);
        }
    }
}

#[test]
fn keep_width_and_keep_height_fix_one_side() {
    assert_eq!(map(d(1920, 100), d(16, 9), AspectRatioMode::KeepWidth), d(1920, 1080));
    assert_eq!(map(d(100, 1080), d(16, 9), AspectRatioMode::KeepHeight), d(1920, 1080));
    // 1000 * 16 / 9 = 1777.77..
    assert_eq!(map(d(5, 1000), d(16, 9), AspectRatioMode::KeepHeight), d(1778, 1000));
    // half a pixel rounds up
    assert_eq!(map(d(7, 1), d(1, 2), AspectRatioMode::KeepHeight), d(1, 1));
    assert_eq!(map(d(1, 3), d(2, 1), AspectRatioMode::KeepWidth), d(1, 1));
}

#[test]
fn keep_height_saturates_at_largest_width() {
    let s = map(d(10, 4), d(u32::MAX, 1), AspectRatioMode::KeepHeight);
    assert_eq!(s, d(u32::MAX, 4));
}

#[test]
fn mapping_twice_gives_same_result() {
    for mode in [
        AspectRatioMode::Keep,
        AspectRatioMode::KeepWidth,
        AspectRatioMode::KeepHeight,
        AspectRatioMode::Scale,
    ] {
        assert_eq!(map(d(1366, 768), d(4, 3), mode), map(d(1366, 768), d(4, 3), mode));
    }
}

#[test]
fn centering_square_in_wide_window() {
    let r = ViewportPlugin::viewport_for(
        d(1000, 500),
        &ScaleableViewport::from_ratio(d(1, 1), AspectRatioMode::Keep),
    );
    assert_eq!(r, rect(d(250, 0), d(500, 500)));
}

#[test]
fn centering_rounds_odd_slack_down() {
    let r = ViewportPlugin::viewport_for(
        d(1001, 500),
        &ScaleableViewport::from_ratio(d(1, 1), AspectRatioMode::Keep),
    );
    assert_eq!(r, rect(d(250, 0), d(500, 500)));
}

#[test]
fn oversized_viewport_sits_at_origin() {
    let r = ViewportPlugin::viewport_for(
        d(1920, 100),
        &ScaleableViewport::from_ratio(d(16, 9), AspectRatioMode::KeepWidth),
    );
    assert_eq!(r, rect(d(0, 0), d(1920, 1080)));
}

#[test]
fn cameras_get_independent_viewports() {
    let cams = vec![
        ScaleableViewport::from_ratio(d(1, 1), AspectRatioMode::Keep),
        ScaleableViewport::from_ratio(d(16, 9), AspectRatioMode::KeepWidth),
        ScaleableViewport::from_ratio(d(4, 3), AspectRatioMode::Scale),
        // fields written directly, bypassing the constructors' checks
        ScaleableViewport { aspect_ratio_mode: AspectRatioMode::Keep, aspect_ratio: d(0, 3) },
    ];
    let out = ViewportPlugin::resize_all(d(1000, 500), &cams);
    assert_eq!(out.len(), 4);
    assert_eq!(out[0], Some(rect(d(250, 0), d(500, 500))));
    assert_eq!(out[1], Some(rect(d(0, 0), d(1000, 563))));
    assert_eq!(out[2], Some(rect(d(0, 0), d(1000, 500))));
    assert_eq!(out[3], None);
    let alone = ViewportPlugin::resize_all(d(1000, 500), &vec![cams[1]]);
    assert_eq!(alone[0], out[1]);
}

#[test]
fn resize_with_no_cameras() {
    assert_eq!(ViewportPlugin::resize_all(d(800, 600), &vec![]), vec![]);
}

#[test]
fn resize_events_last_readable_wins() {
    let cams = vec![ScaleableViewport::from_ratio(d(1, 1), AspectRatioMode::Keep)];
    let events = vec![Some(d(1000, 500)), Some(d(300, 600)), None];
    let out = ViewportPlugin::resize_viewport(&events, &cams).unwrap();
    assert_eq!(out, vec![Some(rect(d(0, 150), d(300, 300)))]);
}

#[test]
fn resize_events_none_readable() {
    let cams = vec![ScaleableViewport::from_ratio(d(1, 1), AspectRatioMode::Keep)];
    assert_eq!(ViewportPlugin::resize_viewport(&vec![], &cams), None);
    assert_eq!(ViewportPlugin::resize_viewport(&vec![None, None], &cams), None);
}
