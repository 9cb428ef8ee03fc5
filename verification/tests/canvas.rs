use snapx_capture::compose::composite_canvas;
use snapx_capture::compose::MonitorCapture;
use snapx_capture::region::extract_region;
use snapx_capture::CaptureError;
use snapx_capture::ImageData;

/// An image whose every pixel is the same RGBA colour.
fn solid(width: u32, height: u32, rgba: [u8; 4]) -> ImageData {
    let mut image = Vec::new();
    for _ in 0..(width as usize) * (height as usize) {
        image.extend_from_slice(&rgba);
    }
    ImageData { image, width, height }
}

fn pixel(img: &ImageData, x: u32, y: u32) -> [u8; 4] {
    let base = ((y as usize) * (img.width as usize) + (x as usize)) * 4;
    [img.image[base], img.image[base + 1], img.image[base + 2], img.image[base + 3]]
}

const RED: [u8; 4] = [255, 0, 0, 255];
const GREEN: [u8; 4] = [0, 255, 0, 255];
const ZERO: [u8; 4] = [0, 0, 0, 0];

#[test]
fn composite_of_two_side_by_side_monitors() {
    // A at (0,0) 800x600, B at (800,0) 800x600: a 1600x600 canvas with A's
    // pixels in columns [0,800) and B's in [800,1600).
    let items = vec![
        MonitorCapture { x: 0, y: 0, image: solid(800, 600, RED) },
        MonitorCapture { x: 800, y: 0, image: solid(800, 600, GREEN) },
    ];
    let canvas = composite_canvas(&items);
    assert_eq!(canvas.width, 1600);
    assert_eq!(canvas.height, 600);
    assert_eq!(canvas.image.len(), 1600 * 600 * 4);
    assert_eq!(pixel(&canvas, 0, 0), RED);
    assert_eq!(pixel(&canvas, 799, 599), RED);
    assert_eq!(pixel(&canvas, 800, 0), GREEN);
    assert_eq!(pixel(&canvas, 1599, 599), GREEN);
}

#[test]
fn composite_dimensions_cover_the_furthest_edges() {
    let items = vec![
        MonitorCapture { x: 10, y: 20, image: solid(30, 40, RED) },
        MonitorCapture { x: 0, y: 0, image: solid(5, 90, GREEN) },
    ];
    let canvas = composite_canvas(&items);
    assert_eq!(canvas.width, 40); // max(10 + 30, 0 + 5)
    assert_eq!(canvas.height, 90); // max(20 + 40, 0 + 90)
}

#[test]
fn composite_keeps_each_monitors_pixels_at_its_offset() {
    let mut striped = solid(4, 2, RED);
    // Recolour one pixel so offsets are visible: pixel (2, 1) becomes green.
    let base = (1 * 4 + 2) * 4;
    striped.image[base..base + 4].copy_from_slice(&GREEN);
    let items = vec![
        MonitorCapture { x: 0, y: 0, image: solid(3, 3, GREEN) },
        MonitorCapture { x: 3, y: 3, image: striped },
    ];
    let canvas = composite_canvas(&items);
    assert_eq!(canvas.width, 7);
    assert_eq!(canvas.height, 5);
    assert_eq!(pixel(&canvas, 3 + 2, 3 + 1), GREEN);
    assert_eq!(pixel(&canvas, 3 + 1, 3 + 1), RED);
    assert_eq!(pixel(&canvas, 1, 1), GREEN);
}

#[test]
fn composite_leaves_uncovered_pixels_zeroed() {
    let items = vec![
        MonitorCapture { x: 0, y: 0, image: solid(2, 2, RED) },
        MonitorCapture { x: 4, y: 4, image: solid(2, 2, GREEN) },
    ];
    let canvas = composite_canvas(&items);
    // The gap between the two placements stays transparent black.
    assert_eq!(pixel(&canvas, 3, 3), ZERO);
    assert_eq!(pixel(&canvas, 0, 5), ZERO);
}

#[test]
fn composite_overlap_is_won_by_the_later_monitor() {
    let items = vec![
        MonitorCapture { x: 0, y: 0, image: solid(4, 4, RED) },
        MonitorCapture { x: 2, y: 2, image: solid(4, 4, GREEN) },
    ];
    let canvas = composite_canvas(&items);
    // Inside the overlap [2,4) x [2,4) the later-listed capture wins.
    assert_eq!(pixel(&canvas, 2, 2), GREEN);
    assert_eq!(pixel(&canvas, 3, 3), GREEN);
    // Outside the overlap each keeps its own pixels.
    assert_eq!(pixel(&canvas, 1, 1), RED);
    assert_eq!(pixel(&canvas, 5, 5), GREEN);
}

#[test]
fn composite_overlap_order_matters() {
    let a = MonitorCapture { x: 0, y: 0, image: solid(4, 4, RED) };
    let b = MonitorCapture { x: 2, y: 2, image: solid(4, 4, GREEN) };
    let ab = composite_canvas(&vec![
        MonitorCapture { x: a.x, y: a.y, image: a.image.clone() },
        MonitorCapture { x: b.x, y: b.y, image: b.image.clone() },
    ]);
    let ba = composite_canvas(&vec![b, a]);
    assert_eq!(pixel(&ab, 3, 3), GREEN);
    assert_eq!(pixel(&ba, 3, 3), RED);
}

#[test]
fn extract_region_crops_the_rectangle() {
    let mut src = solid(6, 4, RED);
    // Make pixel (4, 2) green, then crop a 3x2 window at (3, 1).
    let base = (2 * 6 + 4) * 4;
    src.image[base..base + 4].copy_from_slice(&GREEN);
    let out = extract_region(&src, 3, 1, 3, 2).unwrap();
    assert_eq!(out.width, 3);
    assert_eq!(out.height, 2);
    assert_eq!(out.image.len(), 3 * 2 * 4);
    // (4, 2) in the source is (1, 1) in the crop.
    assert_eq!(pixel(&out, 1, 1), GREEN);
    assert_eq!(pixel(&out, 0, 0), RED);
    assert_eq!(pixel(&out, 2, 1), RED);
}

#[test]
fn extract_region_of_the_whole_image_is_identity() {
    let src = solid(5, 3, GREEN);
    let out = extract_region(&src, 0, 0, 5, 3).unwrap();
    assert_eq!(out.image, src.image);
}

#[test]
fn extract_region_beyond_the_right_edge_fails() {
    let src = solid(6, 4, RED);
    let r = extract_region(&src, 4, 0, 3, 2);
    assert_eq!(r.unwrap_err(), CaptureError::InvalidRegion);
}

#[test]
fn extract_region_beyond_the_bottom_edge_fails() {
    let src = solid(6, 4, RED);
    let r = extract_region(&src, 0, 3, 2, 2);
    assert_eq!(r.unwrap_err(), CaptureError::InvalidRegion);
}

#[test]
fn extract_region_just_inside_the_bounds_succeeds() {
    let src = solid(6, 4, RED);
    let out = extract_region(&src, 4, 2, 2, 2).unwrap();
    assert_eq!(out.width, 2);
    assert_eq!(out.height, 2);
}
