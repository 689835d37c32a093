use rasterizer::error::RasterError;
use rasterizer::grid::PixelGrid;
use rasterizer::scan::BoundingBox;
use rasterizer::scan::FrameScan;
use rasterizer::viewport::Viewport;

const CLEAR: [f32; 4] = [0.0, 0.0, 0.0, 0.0];

fn viewport(width: i32, height: i32) -> Viewport {
    match Viewport::new(width, height) {
        Ok(vp) => vp,
        Err(_) => panic!("viewport dimensions should have been accepted"),
    }
}

#[test]
fn viewport_accepts_positive_dimensions() {
    let vp = viewport(800, 600);
    assert_eq!(vp.width(), 800);
    assert_eq!(vp.height(), 600);
    assert_eq!(vp.pixel_count(), 480000);
}

#[test]
fn viewport_rejects_invalid_dimensions() {
    assert_eq!(Viewport::new(0, 600), Err(RasterError::InvalidViewport));
    assert_eq!(Viewport::new(800, 0), Err(RasterError::InvalidViewport));
    assert_eq!(Viewport::new(-1, -7), Err(RasterError::InvalidViewport));
    assert_eq!(Viewport::new(0, 0), Err(RasterError::InvalidViewport));
    assert_eq!(
        RasterError::InvalidViewport.message(),
        "invalid viewport dimensions"
    );
}

#[test]
fn grid_starts_filled() {
    let vp = viewport(4, 4);
    let grid: PixelGrid<[f32; 4]> = PixelGrid::new(&vp, CLEAR);
    assert_eq!(grid.width(), 4);
    assert_eq!(grid.height(), 4);
    assert_eq!(grid.len(), 16);
    let cells: Vec<[f32; 4]> = grid.into_cells();
    assert_eq!(cells.len(), 16);
    for cell in &cells {
        assert_eq!(*cell, CLEAR);
    }
}

#[test]
fn grid_set_writes_row_major() {
    let vp = viewport(4, 4);
    let red: [f32; 4] = [1.0, 0.0, 0.0, 1.0];
    let mut grid: PixelGrid<[f32; 4]> = PixelGrid::new(&vp, CLEAR);
    grid.set(1, 2, red);
    assert_eq!(grid.get(1, 2), red);
    assert_eq!(grid.get(2, 1), CLEAR);
    let cells: Vec<[f32; 4]> = grid.into_cells();
    // The cell in column 1 of row 2 sits at index 1 + 2 * 4 = 9.
    for (k, cell) in cells.iter().enumerate() {
        if k == 9 {
            assert_eq!(*cell, red);
        } else {
            assert_eq!(*cell, CLEAR);
        }
    }
}

#[test]
fn grid_get_clamped_reads_nearest_border_cell() {
    let vp = viewport(4, 4);
    let a: [f32; 4] = [0.25, 0.5, 0.75, 1.0];
    let b: [f32; 4] = [0.5, 0.5, 0.5, 1.0];
    let mut grid: PixelGrid<[f32; 4]> = PixelGrid::new(&vp, CLEAR);
    grid.set(0, 0, a);
    grid.set(3, 3, b);
    assert_eq!(grid.get_clamped(-5, -1), a);
    assert_eq!(grid.get_clamped(10, 7), b);
    assert_eq!(grid.get_clamped(2, 2), CLEAR);
    assert_eq!(grid.get_clamped(3, -2), CLEAR);
}

#[test]
fn bounding_box_clamps_to_viewport() {
    let vp = viewport(4, 4);
    let rect = BoundingBox::clamped(&vp, -5, 10, 2, 10);
    assert_eq!(rect.x_min(), 0);
    assert_eq!(rect.x_max(), 3);
    assert_eq!(rect.y_min(), 2);
    assert_eq!(rect.y_max(), 3);
    assert!(!rect.is_empty());
    assert!(rect.fits(&vp));
}

#[test]
fn bounding_box_outside_viewport_is_empty() {
    let vp = viewport(4, 4);
    let right = BoundingBox::clamped(&vp, 7, 9, 0, 3);
    assert!(right.is_empty());
    let left = BoundingBox::clamped(&vp, -9, -5, 0, 3);
    assert!(left.is_empty());
    let below = BoundingBox::clamped(&vp, 0, 3, 11, 12);
    assert!(below.is_empty());
}

#[test]
fn scan_offers_each_box_pixel_once_in_row_major_order() {
    let vp = viewport(4, 3);
    let rect = BoundingBox::clamped(&vp, 1, 2, 0, 2);
    let mut scan: FrameScan<[f32; 4]> = FrameScan::new(&vp, CLEAR, rect);
    let mut offered: Vec<(i32, i32)> = Vec::new();
    while let Some(sample) = scan.next_sample() {
        offered.push(sample);
        scan.supply(None);
    }
    let expected: Vec<(i32, i32)> = vec![(1, 0), (2, 0), (1, 1), (2, 1), (1, 2), (2, 2)];
    assert_eq!(offered, expected);
    let pixels: Vec<[f32; 4]> = scan.finish();
    assert_eq!(pixels.len(), 12);
    for pixel in &pixels {
        assert_eq!(*pixel, CLEAR);
    }
}

#[test]
fn scan_empty_box_returns_untouched_frame() {
    let vp = viewport(4, 4);
    let rect = BoundingBox::clamped(&vp, 7, 9, 0, 3);
    let scan: FrameScan<[f32; 4]> = FrameScan::new(&vp, CLEAR, rect);
    assert_eq!(scan.next_sample(), None);
    let pixels: Vec<[f32; 4]> = scan.finish();
    assert_eq!(pixels.len(), 16);
    for pixel in &pixels {
        assert_eq!(*pixel, CLEAR);
    }
}

#[test]
fn scan_writes_covered_pixels_and_keeps_the_rest() {
    let vp = viewport(4, 4);
    let red: [f32; 4] = [1.0, 0.0, 0.0, 1.0];
    let rect = BoundingBox::clamped(&vp, 1, 2, 1, 2);
    let mut scan: FrameScan<[f32; 4]> = FrameScan::new(&vp, CLEAR, rect);
    while let Some((x, y)) = scan.next_sample() {
        if x == y {
            scan.supply(Some(red));
        } else {
            scan.supply(None);
        }
    }
    let pixels: Vec<[f32; 4]> = scan.finish();
    assert_eq!(pixels.len(), 16);
    for y in 0..4i32 {
        for x in 0..4i32 {
            let k: usize = (x + y * 4) as usize;
            let in_box = 1 <= x && x <= 2 && 1 <= y && y <= 2;
            if in_box && x == y {
                assert_eq!(pixels[k], red);
                assert_eq!(pixels[k][3], 1.0);
            } else {
                assert_eq!(pixels[k], CLEAR);
                assert_eq!(pixels[k][3], 0.0);
            }
        }
    }
}

#[test]
fn scan_frame_has_width_times_height_pixels() {
    let sizes: Vec<(i32, i32)> = vec![(1, 1), (4, 4), (7, 3), (800, 600)];
    for (w, h) in sizes {
        let vp = viewport(w, h);
        let rect = BoundingBox::clamped(&vp, 0, w - 1, 0, h - 1);
        let mut scan: FrameScan<[f32; 4]> = FrameScan::new(&vp, CLEAR, rect);
        let mut offered: usize = 0;
        while let Some(_sample) = scan.next_sample() {
            offered += 1;
            scan.supply(None);
        }
        assert_eq!(offered, (w * h) as usize);
        let pixels: Vec<[f32; 4]> = scan.finish();
        assert_eq!(pixels.len(), (w * h) as usize);
    }
}

#[test]
fn paint_composes_full_frame() {
    let vp = viewport(4, 4);
    let red: [f32; 4] = [1.0, 0.0, 0.0, 1.0];
    let blue: [f32; 4] = [0.0, 0.0, 1.0, 1.0];
    let rect = BoundingBox::clamped(&vp, 1, 2, 1, 2);
    // Samples in row-major box order: (1,1), (2,1), (1,2), (2,2).
    let samples: Vec<Option<[f32; 4]>> = vec![Some(red), None, None, Some(blue)];
    let pixels: Vec<[f32; 4]> = rasterizer::scan::paint(&vp, CLEAR, rect, &samples);
    assert_eq!(pixels.len(), 16);
    for (k, pixel) in pixels.iter().enumerate() {
        // (1,1) sits at index 5 and (2,2) at index 10.
        if k == 5 {
            assert_eq!(*pixel, red);
        } else if k == 10 {
            assert_eq!(*pixel, blue);
        } else {
            assert_eq!(*pixel, CLEAR);
        }
    }
}

#[test]
fn paint_empty_box_leaves_frame_clear() {
    let vp = viewport(3, 2);
    let rect = BoundingBox::clamped(&vp, 5, 9, 0, 1);
    assert!(rect.is_empty());
    let samples: Vec<Option<[f32; 4]>> = Vec::new();
    let pixels: Vec<[f32; 4]> = rasterizer::scan::paint(&vp, CLEAR, rect, &samples);
    assert_eq!(pixels.len(), 6);
    for pixel in &pixels {
        assert_eq!(*pixel, CLEAR);
    }
}

#[test]
fn scan_identical_runs_give_identical_frames() {
    let mut frames: Vec<Vec<[f32; 4]>> = Vec::new();
    for _run in 0..2 {
        let vp = viewport(5, 5);
        let rect = BoundingBox::clamped(&vp, 0, 4, 0, 4);
        let mut scan: FrameScan<[f32; 4]> = FrameScan::new(&vp, CLEAR, rect);
        while let Some((x, y)) = scan.next_sample() {
            if x + y <= 3 {
                let shade: f32 = (x as f32 + y as f32) / 8.0;
                scan.supply(Some([shade, 1.0 - shade, 0.5, 1.0]));
            } else {
                scan.supply(None);
            }
        }
        frames.push(scan.finish());
    }
    assert_eq!(frames[0], frames[1]);
}
