use platform_core::positioner::{
    compute_window_bounds, Bounds, DisplayInfo, WindowPosition, WindowSize,
};

fn display(id: u64, x: i64, y: i64, w: i64, h: i64) -> DisplayInfo {
    DisplayInfo { id, bounds: Bounds { origin_x: x, origin_y: y, width: w, height: h } }
}

fn size(w: i64, h: i64) -> WindowSize {
    WindowSize { width: w, height: h }
}

#[test]
fn center_on_primary_display() {
    let primary = Some(display(1, 0, 0, 1920, 1080));
    let r = compute_window_bounds(size(400, 300), &WindowPosition::Center, &vec![], &primary);
    assert_eq!(r, Bounds { origin_x: 760, origin_y: 390, width: 400, height: 300 });
}

#[test]
fn center_without_display_lands_at_origin() {
    let r = compute_window_bounds(size(400, 300), &WindowPosition::Center, &vec![], &None);
    assert_eq!(r, Bounds { origin_x: 0, origin_y: 0, width: 400, height: 300 });
}

#[test]
fn center_on_named_display() {
    let displays = vec![display(1, 0, 0, 1920, 1080), display(2, 1920, 0, 1000, 1000)];
    let primary = Some(displays[0]);
    let r = compute_window_bounds(
        size(200, 200),
        &WindowPosition::CenterOnDisplay(2),
        &displays,
        &primary,
    );
    assert_eq!(r, Bounds { origin_x: 2320, origin_y: 400, width: 200, height: 200 });
}

#[test]
fn center_on_missing_display_falls_back_to_primary() {
    let displays = vec![display(1, 0, 0, 1920, 1080)];
    let primary = Some(displays[0]);
    let r = compute_window_bounds(
        size(400, 300),
        &WindowPosition::CenterOnDisplay(9),
        &displays,
        &primary,
    );
    assert_eq!(r, Bounds { origin_x: 760, origin_y: 390, width: 400, height: 300 });
}

#[test]
fn tray_center_hangs_below_the_tray() {
    let tray = Bounds { origin_x: 100, origin_y: 10, width: 40, height: 20 };
    let r = compute_window_bounds(size(200, 100), &WindowPosition::TrayCenter(tray), &vec![], &None);
    // x = 100 + (40 - 200) / 2, halving toward zero; y is the tray's bottom
    assert_eq!(r, Bounds { origin_x: 20, origin_y: 30, width: 200, height: 100 });
}

#[test]
fn corner_positions_respect_margins() {
    let primary = Some(display(1, 0, 0, 1920, 1080));
    let top_right = compute_window_bounds(
        size(400, 300),
        &WindowPosition::TopRight { margin: 10 },
        &vec![],
        &primary,
    );
    assert_eq!(top_right, Bounds { origin_x: 1510, origin_y: 10, width: 400, height: 300 });
    let bottom_right = compute_window_bounds(
        size(400, 300),
        &WindowPosition::BottomRight { margin: 10 },
        &vec![],
        &primary,
    );
    assert_eq!(bottom_right, Bounds { origin_x: 1510, origin_y: 770, width: 400, height: 300 });
    let top_left = compute_window_bounds(
        size(400, 300),
        &WindowPosition::TopLeft { margin: 10 },
        &vec![],
        &primary,
    );
    assert_eq!(top_left, Bounds { origin_x: 10, origin_y: 10, width: 400, height: 300 });
    let bottom_left = compute_window_bounds(
        size(400, 300),
        &WindowPosition::BottomLeft { margin: 10 },
        &vec![],
        &primary,
    );
    assert_eq!(bottom_left, Bounds { origin_x: 10, origin_y: 770, width: 400, height: 300 });
}

#[test]
fn corner_without_display_lands_at_origin() {
    let r = compute_window_bounds(
        size(400, 300),
        &WindowPosition::TopRight { margin: 10 },
        &vec![],
        &None,
    );
    assert_eq!(r, Bounds { origin_x: 0, origin_y: 0, width: 400, height: 300 });
}

#[test]
fn oversized_window_centers_with_negative_offset() {
    let primary = Some(display(1, 0, 0, 100, 100));
    let r = compute_window_bounds(size(301, 100), &WindowPosition::Center, &vec![], &primary);
    // (100 - 301) / 2 rounds toward zero: -100
    assert_eq!(r.origin_x, -100);
}
