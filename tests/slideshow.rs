use bmp_slideshow::frame::FrameBuffer;
use bmp_slideshow::slideshow::{Slideshow, SlideshowError};

#[test]
fn no_frames_is_no_images() {
    assert_eq!(Slideshow::new(Vec::new()).err(), Some(SlideshowError::NoImages));
}

#[test]
fn three_frames_cycle_in_order() {
    let frames = vec![FrameBuffer::new(1, 1), FrameBuffer::new(2, 1), FrameBuffer::new(3, 1)];
    let mut show = Slideshow::new(frames).unwrap();
    assert_eq!(show.len(), 3);
    let mut seen = Vec::new();
    for _ in 0..9 {
        seen.push(show.advance());
    }
    assert_eq!(seen, vec![0, 1, 2, 0, 1, 2, 0, 1, 2]);
}

#[test]
fn next_frame_returns_frames_in_order() {
    let frames = vec![FrameBuffer::new(1, 1), FrameBuffer::new(2, 1), FrameBuffer::new(3, 1)];
    let mut show = Slideshow::new(frames).unwrap();
    let widths: Vec<usize> = (0..7).map(|_| show.next_frame().width()).collect();
    assert_eq!(widths, vec![1, 2, 3, 1, 2, 3, 1]);
    assert_eq!(show.position_index(), 1);
    assert_eq!(show.frame(2).width(), 3);
}

#[test]
fn single_frame_repeats() {
    let mut show = Slideshow::new(vec![FrameBuffer::new(4, 4)]).unwrap();
    for _ in 0..3 {
        assert_eq!(show.advance(), 0);
    }
}
