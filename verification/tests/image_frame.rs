use ascii_cam::error::FrameError;
use ascii_cam::image_frame::ImageFrame;

fn numbered_frame(w: usize, h: usize, bpp: usize) -> ImageFrame {
    let mut frame = ImageFrame::new(w, h, bpp).unwrap();
    let buffer = frame.buffer_mut();
    for i in 0..buffer.len() {
        buffer[i] = (i % 251) as u8;
    }
    frame
}

#[test]
fn image_frame_new_has_exact_buffer_length() {
    for (w, h, b) in [(1, 1, 1), (4, 3, 3), (7, 5, 4), (64, 64, 3), (640, 480, 3)] {
        let frame = ImageFrame::new(w, h, b).unwrap();
        assert_eq!(frame.buffer().len(), w * h * b);
        assert_eq!(frame.width(), w);
        assert_eq!(frame.height(), h);
        assert_eq!(frame.bytes_per_pixel(), b);
        assert!(frame.is_well_formed());
    }
}

#[test]
fn image_frame_new_is_black() {
    let frame = ImageFrame::new(5, 4, 3).unwrap();
    assert!(frame.buffer().iter().all(|b| *b == 0));
    assert_eq!(frame.get_pixel(4, 3), Some((0, 0, 0)));
}

#[test]
fn image_frame_new_rejects_zero_width() {
    assert!(matches!(ImageFrame::new(0, 4, 3), Err(FrameError::InvalidDimensions)));
}

#[test]
fn image_frame_new_rejects_zero_height() {
    assert!(matches!(ImageFrame::new(4, 0, 3), Err(FrameError::InvalidDimensions)));
}

#[test]
fn image_frame_new_rejects_zero_bytes_per_pixel() {
    assert!(matches!(ImageFrame::new(4, 4, 0), Err(FrameError::InvalidDimensions)));
    assert!(matches!(ImageFrame::new(0, 0, 0), Err(FrameError::InvalidDimensions)));
}

#[test]
fn get_pixel_reads_first_three_bytes_at_offset() {
    let frame = numbered_frame(4, 3, 3);
    assert_eq!(frame.get_pixel(0, 0), Some((0, 1, 2)));
    assert_eq!(frame.get_pixel(1, 0), Some((3, 4, 5)));
    assert_eq!(frame.get_pixel(0, 1), Some((12, 13, 14)));
    assert_eq!(frame.get_pixel(3, 2), Some((33, 34, 35)));
}

#[test]
fn get_pixel_with_four_bytes_per_pixel_skips_the_fourth() {
    let frame = numbered_frame(3, 2, 4);
    assert_eq!(frame.get_pixel(0, 0), Some((0, 1, 2)));
    assert_eq!(frame.get_pixel(1, 0), Some((4, 5, 6)));
    assert_eq!(frame.get_pixel(2, 1), Some((20, 21, 22)));
}

#[test]
fn get_pixel_inside_is_present_and_outside_is_absent() {
    let frame = numbered_frame(6, 4, 3);
    for y in 0..8 {
        for x in 0..10 {
            let pixel = frame.get_pixel(x, y);
            assert_eq!(pixel.is_some(), x < 6 && y < 4);
            if let Some((r, g, b)) = pixel {
                let i = (y * 6 + x) * 3;
                assert_eq!(r, frame.buffer()[i]);
                assert_eq!(g, frame.buffer()[i + 1]);
                assert_eq!(b, frame.buffer()[i + 2]);
            }
        }
    }
}

#[test]
fn get_pixel_far_outside_is_absent() {
    let frame = numbered_frame(6, 4, 3);
    assert_eq!(frame.get_pixel(usize::MAX, 0), None);
    assert_eq!(frame.get_pixel(0, usize::MAX), None);
    assert_eq!(frame.get_pixel(usize::MAX, usize::MAX), None);
    assert_eq!(frame.get_pixel(6, 0), None);
    assert_eq!(frame.get_pixel(0, 4), None);
}

#[test]
fn get_pixel_is_absent_where_three_bytes_do_not_fit() {
    // one byte per pixel: the last two pixels have no three bytes left
    let frame = numbered_frame(4, 2, 1);
    assert_eq!(frame.get_pixel(0, 0), Some((0, 1, 2)));
    assert_eq!(frame.get_pixel(1, 1), Some((5, 6, 7)));
    assert_eq!(frame.get_pixel(2, 1), None);
    assert_eq!(frame.get_pixel(3, 1), None);
    // two bytes per pixel: only the last pixel lacks its third byte
    let frame = numbered_frame(4, 2, 2);
    assert_eq!(frame.get_pixel(2, 1), Some((12, 13, 14)));
    assert_eq!(frame.get_pixel(3, 1), None);
    // a buffer of fewer than three bytes holds no pixel
    let frame = numbered_frame(2, 1, 1);
    assert_eq!(frame.get_pixel(0, 0), None);
}

#[test]
fn buffer_mut_writes_reach_the_frame() {
    let mut frame = ImageFrame::new(3, 2, 3).unwrap();
    {
        let buffer = frame.buffer_mut();
        assert_eq!(buffer.len(), 18);
        buffer[3] = 10;
        buffer[4] = 20;
        buffer[5] = 30;
    }
    assert_eq!(frame.get_pixel(1, 0), Some((10, 20, 30)));
    assert_eq!(frame.get_pixel(0, 0), Some((0, 0, 0)));
    assert_eq!(frame.buffer()[4], 20);
    assert_eq!(frame.buffer().len(), 18);
    assert!(frame.is_well_formed());
}

#[test]
fn buffer_mut_takes_a_whole_copy() {
    let mut frame = ImageFrame::new(4, 4, 3).unwrap();
    let source: Vec<u8> = (0..48).map(|i| (i * 5) as u8).collect();
    frame.buffer_mut().copy_from_slice(&source);
    assert_eq!(frame.buffer(), &source[..]);
    assert_eq!(frame.get_pixel(3, 3), Some((225, 230, 235)));
}

#[test]
fn load_replaces_the_whole_buffer() {
    let mut frame = ImageFrame::new(2, 2, 3).unwrap();
    let source: Vec<u8> = (1..=12).collect();
    assert_eq!(frame.load(&source), Ok(()));
    assert_eq!(frame.buffer(), &source[..]);
    assert_eq!(frame.get_pixel(1, 1), Some((10, 11, 12)));
    assert_eq!(frame.width(), 2);
    assert_eq!(frame.height(), 2);
    assert_eq!(frame.bytes_per_pixel(), 3);
}

#[test]
fn load_refuses_another_length() {
    let mut frame = numbered_frame(2, 2, 3);
    let before: Vec<u8> = frame.buffer().to_vec();
    assert_eq!(frame.load(&[1, 2, 3]), Err(FrameError::ConversionError));
    assert_eq!(frame.buffer(), &before[..]);
    let long = vec![9u8; 13];
    assert_eq!(frame.load(&long), Err(FrameError::ConversionError));
    assert_eq!(frame.load(&[]), Err(FrameError::ConversionError));
    assert_eq!(frame.buffer(), &before[..]);
    assert!(frame.is_well_formed());
}
