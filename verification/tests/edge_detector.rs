use ascii_cam::edge_detector::{classify_gradient, EdgeDetector};
use ascii_cam::edge_map::{EdgeCell, EdgeDirection, EdgeMap};
use ascii_cam::error::FrameError;
use ascii_cam::image_frame::ImageFrame;

fn gray_frame(w: usize, h: usize, level: fn(usize, usize) -> u8) -> ImageFrame {
    let mut frame = ImageFrame::new(w, h, 3).unwrap();
    let buffer = frame.buffer_mut();
    for y in 0..h {
        for x in 0..w {
            let v = level(x, y);
            let i = (y * w + x) * 3;
            buffer[i] = v;
            buffer[i + 1] = v;
            buffer[i + 2] = v;
        }
    }
    frame
}

fn white_right_of_three(x: usize, _y: usize) -> u8 {
    if x >= 3 { 255 } else { 0 }
}

fn white_below_three(_x: usize, y: usize) -> u8 {
    if y >= 3 { 255 } else { 0 }
}

fn white_past_the_diagonal(x: usize, y: usize) -> u8 {
    if x + y >= 6 { 255 } else { 0 }
}

fn white_above_the_diagonal(x: usize, y: usize) -> u8 {
    if x >= y { 255 } else { 0 }
}

fn mid_gray(_x: usize, _y: usize) -> u8 {
    128
}

const FLAT: EdgeCell = EdgeCell { magnitude_sq: 0, direction: EdgeDirection::NoEdge };

#[test]
fn classify_gradient_along_axes_and_diagonals() {
    for g in [1, 2, 7, 1016, i32::MAX] {
        assert_eq!(classify_gradient(g, 0), EdgeDirection::Horizontal);
        assert_eq!(classify_gradient(-g, 0), EdgeDirection::Horizontal);
        assert_eq!(classify_gradient(0, g), EdgeDirection::Vertical);
        assert_eq!(classify_gradient(0, -g), EdgeDirection::Vertical);
        assert_eq!(classify_gradient(g, g), EdgeDirection::ForwardDiagonal);
        assert_eq!(classify_gradient(-g, -g), EdgeDirection::ForwardDiagonal);
        assert_eq!(classify_gradient(g, -g), EdgeDirection::BackDiagonal);
        assert_eq!(classify_gradient(-g, g), EdgeDirection::BackDiagonal);
    }
    assert_eq!(classify_gradient(i32::MIN, 0), EdgeDirection::Horizontal);
    assert_eq!(classify_gradient(0, i32::MIN), EdgeDirection::Vertical);
    assert_eq!(classify_gradient(i32::MIN, i32::MIN), EdgeDirection::ForwardDiagonal);
    assert_eq!(classify_gradient(i32::MIN, i32::MAX), EdgeDirection::BackDiagonal);
}

#[test]
fn classify_gradient_zero_has_no_direction() {
    assert_eq!(classify_gradient(0, 0), EdgeDirection::NoEdge);
}

#[test]
fn classify_gradient_near_the_sector_boundaries() {
    // slopes just under and just over the tangent of 22.5 degrees
    assert_eq!(classify_gradient(5, 2), EdgeDirection::Horizontal);
    assert_eq!(classify_gradient(29, 12), EdgeDirection::Horizontal);
    assert_eq!(classify_gradient(70, 29), EdgeDirection::ForwardDiagonal);
    assert_eq!(classify_gradient(12, 5), EdgeDirection::ForwardDiagonal);
    assert_eq!(classify_gradient(5, 12), EdgeDirection::ForwardDiagonal);
    assert_eq!(classify_gradient(29, 70), EdgeDirection::ForwardDiagonal);
    assert_eq!(classify_gradient(12, 29), EdgeDirection::Vertical);
    assert_eq!(classify_gradient(2, 5), EdgeDirection::Vertical);
    assert_eq!(classify_gradient(-5, 2), EdgeDirection::Horizontal);
    assert_eq!(classify_gradient(12, -5), EdgeDirection::BackDiagonal);
    assert_eq!(classify_gradient(-12, 5), EdgeDirection::BackDiagonal);
    assert_eq!(classify_gradient(-2, 5), EdgeDirection::Vertical);
    assert_eq!(classify_gradient(-70, 29), EdgeDirection::BackDiagonal);
    assert_eq!(classify_gradient(-29, 12), EdgeDirection::Horizontal);
}

#[test]
fn classify_gradient_is_total_and_undirected() {
    for gx in -40..=40 {
        for gy in -40..=40 {
            let d = classify_gradient(gx, gy);
            assert_eq!(d == EdgeDirection::NoEdge, gx == 0 && gy == 0);
            assert_eq!(classify_gradient(-gx, -gy), d);
            // turning the gradient by a right angle swaps the axes and the diagonals
            let turned = classify_gradient(-gy, gx);
            let expected = match d {
                EdgeDirection::NoEdge => EdgeDirection::NoEdge,
                EdgeDirection::Horizontal => EdgeDirection::Vertical,
                EdgeDirection::Vertical => EdgeDirection::Horizontal,
                EdgeDirection::ForwardDiagonal => EdgeDirection::BackDiagonal,
                EdgeDirection::BackDiagonal => EdgeDirection::ForwardDiagonal,
            };
            assert_eq!(turned, expected);
        }
    }
}

#[test]
fn classify_gradient_agrees_with_the_angle() {
    for gx in -60..=60i32 {
        for gy in -60..=60i32 {
            if gx == 0 && gy == 0 {
                continue;
            }
            let mut angle = (gy as f64).atan2(gx as f64).to_degrees();
            if angle < 0.0 {
                angle += 180.0;
            }
            if angle >= 180.0 {
                angle -= 180.0;
            }
            let expected = if angle < 22.5 || angle >= 157.5 {
                EdgeDirection::Horizontal
            } else if angle < 67.5 {
                EdgeDirection::ForwardDiagonal
            } else if angle < 112.5 {
                EdgeDirection::Vertical
            } else {
                EdgeDirection::BackDiagonal
            };
            assert_eq!(classify_gradient(gx, gy), expected);
        }
    }
}

#[test]
fn detect_uniform_frame_has_no_edges() {
    let frame = gray_frame(9, 7, mid_gray);
    for threshold in [0, 1, 1000, 500_000] {
        let map = EdgeDetector::new(threshold).detect(&frame);
        assert_eq!(map.width(), 9);
        assert_eq!(map.height(), 7);
        assert_eq!(map.cells().len(), 63);
        assert!(map.cells().iter().all(|c| *c == FLAT));
    }
}

#[test]
fn detect_vertical_boundary() {
    let frame = gray_frame(6, 5, white_right_of_three);
    let map = EdgeDetector::new(1000).detect(&frame);
    let edge = EdgeCell { magnitude_sq: 1016 * 1016, direction: EdgeDirection::Horizontal };
    for y in 0..5 {
        for x in 0..6 {
            let interior = 1 <= y && y <= 3;
            let expected = if interior && (x == 2 || x == 3) { edge } else { FLAT };
            assert_eq!(map.cell(x, y), expected);
        }
    }
}

#[test]
fn detect_horizontal_boundary() {
    let frame = gray_frame(5, 6, white_below_three);
    let map = EdgeDetector::new(1000).detect(&frame);
    let edge = EdgeCell { magnitude_sq: 1016 * 1016, direction: EdgeDirection::Vertical };
    for y in 0..6 {
        for x in 0..5 {
            let interior = 1 <= x && x <= 3;
            let expected = if interior && (y == 2 || y == 3) { edge } else { FLAT };
            assert_eq!(map.cell(x, y), expected);
        }
    }
}

#[test]
fn detect_diagonal_boundaries() {
    let detector = EdgeDetector::new(1000);
    let frame = gray_frame(7, 7, white_past_the_diagonal);
    assert_eq!(
        detector.detect_cell(&frame, 3, 3),
        EdgeCell { magnitude_sq: 2 * 762 * 762, direction: EdgeDirection::ForwardDiagonal }
    );
    let frame = gray_frame(7, 7, white_above_the_diagonal);
    assert_eq!(
        detector.detect_cell(&frame, 3, 3),
        EdgeCell { magnitude_sq: 2 * 762 * 762, direction: EdgeDirection::BackDiagonal }
    );
}

#[test]
fn detect_threshold_separates_flat_from_edge() {
    let frame = gray_frame(6, 5, white_right_of_three);
    // the gradient's magnitude is 1016: a threshold of 1016 does not suppress it
    let at = EdgeDetector::new(1_016_000);
    assert_eq!(at.threshold(), 1_016_000);
    assert_eq!(
        at.detect_cell(&frame, 2, 2),
        EdgeCell { magnitude_sq: 1016 * 1016, direction: EdgeDirection::Horizontal }
    );
    // one thousandth more does
    let above = EdgeDetector::new(1_016_001);
    assert_eq!(
        above.detect_cell(&frame, 2, 2),
        EdgeCell { magnitude_sq: 1016 * 1016, direction: EdgeDirection::NoEdge }
    );
    let zero = EdgeDetector::new(0);
    assert_eq!(zero.detect_cell(&frame, 1, 2), FLAT);
    assert_eq!(zero.detect_cell(&frame, 3, 2).direction, EdgeDirection::Horizontal);
    let most = EdgeDetector::new(u32::MAX);
    assert_eq!(most.detect_cell(&frame, 3, 2).direction, EdgeDirection::NoEdge);
}

#[test]
fn detect_border_cells_are_flat() {
    let frame = gray_frame(6, 5, white_right_of_three);
    let detector = EdgeDetector::new(0);
    for x in 0..6 {
        assert_eq!(detector.detect_cell(&frame, x, 0), FLAT);
        assert_eq!(detector.detect_cell(&frame, x, 4), FLAT);
    }
    for y in 0..5 {
        assert_eq!(detector.detect_cell(&frame, 0, y), FLAT);
        assert_eq!(detector.detect_cell(&frame, 5, y), FLAT);
    }
    assert_eq!(detector.detect_cell(&frame, 6, 2), FLAT);
    assert_eq!(detector.detect_cell(&frame, 2, 5), FLAT);
    assert_eq!(detector.detect_cell(&frame, usize::MAX, 2), FLAT);
    assert_eq!(detector.detect_cell(&frame, 2, usize::MAX), FLAT);
}

#[test]
fn detect_small_frames_are_all_border() {
    for (w, h) in [(1, 1), (2, 2), (2, 9), (9, 2), (1, 5)] {
        let frame = gray_frame(w, h, white_right_of_three);
        let map = EdgeDetector::new(0).detect(&frame);
        assert_eq!(map.cells().len(), w * h);
        assert!(map.cells().iter().all(|c| *c == FLAT));
    }
}

#[test]
fn detect_map_agrees_with_detect_cell() {
    let frame = gray_frame(7, 7, white_past_the_diagonal);
    let detector = EdgeDetector::new(300_000);
    let map = detector.detect(&frame);
    for y in 0..7 {
        for x in 0..7 {
            assert_eq!(map.cell(x, y), detector.detect_cell(&frame, x, y));
            assert_eq!(map.cells()[y * 7 + x], map.cell(x, y));
        }
    }
}

#[test]
fn detect_weights_the_colour_channels() {
    // a green step: luminance 149 against 0
    let mut frame = ImageFrame::new(4, 3, 3).unwrap();
    {
        let buffer = frame.buffer_mut();
        for y in 0..3 {
            for x in 2..4 {
                buffer[(y * 4 + x) * 3 + 1] = 255;
            }
        }
    }
    let detector = EdgeDetector::new(1000);
    assert_eq!(
        detector.detect_cell(&frame, 1, 1),
        EdgeCell { magnitude_sq: 596 * 596, direction: EdgeDirection::Horizontal }
    );
    assert_eq!(
        detector.detect_cell(&frame, 2, 1),
        EdgeCell { magnitude_sq: 596 * 596, direction: EdgeDirection::Horizontal }
    );
}

#[test]
fn edge_map_from_cells_checks_the_dimensions() {
    let cells = vec![FLAT; 6];
    assert!(matches!(EdgeMap::from_cells(0, 6, cells.clone()), Err(FrameError::InvalidDimensions)));
    assert!(matches!(EdgeMap::from_cells(6, 0, cells.clone()), Err(FrameError::InvalidDimensions)));
    assert!(matches!(EdgeMap::from_cells(0, 0, Vec::new()), Err(FrameError::InvalidDimensions)));
    assert!(matches!(EdgeMap::from_cells(2, 2, cells.clone()), Err(FrameError::ConversionError)));
    assert!(matches!(EdgeMap::from_cells(7, 1, cells.clone()), Err(FrameError::ConversionError)));
    assert!(matches!(
        EdgeMap::from_cells(usize::MAX, usize::MAX, cells.clone()),
        Err(FrameError::ConversionError)
    ));
    let map = EdgeMap::from_cells(3, 2, cells).unwrap();
    assert_eq!(map.width(), 3);
    assert_eq!(map.height(), 2);
    assert_eq!(map.cells().len(), 6);
}

#[test]
fn edge_map_cell_is_row_major_and_flat_outside() {
    let mut cells = Vec::new();
    for i in 0..6u32 {
        cells.push(EdgeCell { magnitude_sq: i + 1, direction: EdgeDirection::Vertical });
    }
    let map = EdgeMap::from_cells(3, 2, cells).unwrap();
    assert_eq!(map.cell(0, 0).magnitude_sq, 1);
    assert_eq!(map.cell(2, 0).magnitude_sq, 3);
    assert_eq!(map.cell(0, 1).magnitude_sq, 4);
    assert_eq!(map.cell(2, 1).magnitude_sq, 6);
    assert_eq!(map.cell(3, 0), FLAT);
    assert_eq!(map.cell(0, 2), FLAT);
    assert_eq!(map.cell(usize::MAX, usize::MAX), FLAT);
}
