use snapx_capture::windows::find_topmost_at_point;
use snapx_capture::windows::sort_windows_by_z;
use snapx_capture::CaptureError;
use snapx_capture::WindowData;

fn window(title: &str, x: i32, y: i32, width: u32, height: u32, z: i32) -> WindowData {
    WindowData {
        title: title.to_string(),
        app_name: format!("{}-app", title),
        pid: 42,
        x,
        y,
        width,
        height,
        z,
    }
}

#[test]
fn sort_orders_by_descending_z() {
    let windows = vec![
        window("back", 0, 0, 100, 100, 1),
        window("front", 0, 0, 100, 100, 9),
        window("middle", 0, 0, 100, 100, 4),
    ];
    let sorted = sort_windows_by_z(&windows);
    let titles: Vec<&str> = sorted.iter().map(|w| w.title.as_str()).collect();
    assert_eq!(titles, vec!["front", "middle", "back"]);
}

#[test]
fn sort_keeps_every_window() {
    let windows = vec![
        window("a", 0, 0, 10, 10, 3),
        window("b", 5, 5, 10, 10, 3),
        window("c", 9, 9, 10, 10, 7),
    ];
    let sorted = sort_windows_by_z(&windows);
    assert_eq!(sorted.len(), 3);
    let mut titles: Vec<&str> = sorted.iter().map(|w| w.title.as_str()).collect();
    titles.sort();
    assert_eq!(titles, vec!["a", "b", "c"]);
}

#[test]
fn topmost_of_two_overlapping_windows_has_the_higher_z() {
    let windows = vec![
        window("below", 0, 0, 200, 200, 2),
        window("above", 50, 50, 200, 200, 5),
    ];
    // (60, 60) lies inside both rectangles.
    let found = find_topmost_at_point(&windows, 60, 60).unwrap();
    assert_eq!(found.title, "above");
    // (10, 10) lies only inside the lower window.
    let found = find_topmost_at_point(&windows, 10, 10).unwrap();
    assert_eq!(found.title, "below");
}

#[test]
fn topmost_lookup_uses_inclusive_edges() {
    let windows = vec![window("w", 10, 10, 100, 50, 1)];
    // All four corners, the far edges included.
    assert!(find_topmost_at_point(&windows, 10, 10).is_ok());
    assert!(find_topmost_at_point(&windows, 110, 60).is_ok());
    assert!(find_topmost_at_point(&windows, 110, 10).is_ok());
    // One past the far edge is outside.
    assert!(find_topmost_at_point(&windows, 111, 60).is_err());
    assert!(find_topmost_at_point(&windows, 110, 61).is_err());
}

#[test]
fn topmost_with_equal_z_prefers_the_first_listed() {
    let windows = vec![
        window("first", 0, 0, 100, 100, 5),
        window("second", 0, 0, 100, 100, 5),
    ];
    let found = find_topmost_at_point(&windows, 10, 10).unwrap();
    assert_eq!(found.title, "first");
}

#[test]
fn topmost_finds_windows_at_negative_coordinates() {
    let windows = vec![window("left", -50, -20, 100, 100, 1)];
    assert!(find_topmost_at_point(&windows, 30, 60).is_ok());
    assert!(find_topmost_at_point(&windows, 51, 0).is_err());
}

#[test]
fn topmost_lookup_outside_every_window_fails() {
    let windows = vec![
        window("a", 0, 0, 10, 10, 1),
        window("b", 100, 100, 10, 10, 2),
    ];
    let r = find_topmost_at_point(&windows, 50, 50);
    assert_eq!(r.unwrap_err(), CaptureError::NotFound);
}

#[test]
fn topmost_ignores_higher_windows_elsewhere() {
    let windows = vec![
        window("target", 0, 0, 20, 20, 1),
        window("high-but-away", 500, 500, 20, 20, 99),
    ];
    let found = find_topmost_at_point(&windows, 5, 5).unwrap();
    assert_eq!(found.title, "target");
}
