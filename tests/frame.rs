use bmp_slideshow::frame::{FrameBuffer, SourceRegion, Transfer};
use bmp_slideshow::pixel::Pixel;

#[test]
fn new_frame_is_black() {
    let fb = FrameBuffer::new(3, 2);
    assert_eq!(fb.width(), 3);
    assert_eq!(fb.height(), 2);
    assert_eq!(fb.pixels(), &vec![Pixel::new(0, 0, 0); 6]);
}

#[test]
fn zero_sized_frame_is_empty() {
    let fb = FrameBuffer::new(0, 4);
    assert!(fb.pixels().is_empty());
}

#[test]
fn pixel_at_outside_is_none() {
    let mut fb = FrameBuffer::new(3, 2);
    assert!(fb.pixel_at(3, 0).is_none());
    assert!(fb.pixel_at(0, 2).is_none());
    assert!(fb.pixel_at(usize::MAX, usize::MAX).is_none());
    let mut empty = FrameBuffer::new(0, 0);
    assert!(empty.pixel_at(0, 0).is_none());
    let mut no_rows = FrameBuffer::new(5, 0);
    assert!(no_rows.pixel_at(0, 0).is_none());
}

#[test]
fn pixel_at_does_not_wrap_into_next_row() {
    let mut fb = FrameBuffer::new(2, 3);
    assert!(fb.pixel_at(2, 1).is_none());
}

#[test]
fn written_pixel_reads_back() {
    let mut fb = FrameBuffer::new(3, 2);
    let c = Pixel::new(10, 20, 30);
    *fb.pixel_at(2, 1).unwrap() = c;
    assert_eq!(*fb.pixel_at(2, 1).unwrap(), c);
    assert_eq!(fb.pixels()[5], c);
    assert_eq!(*fb.pixel_at(1, 1).unwrap(), Pixel::new(0, 0, 0));
    assert_eq!(fb.pixels().iter().filter(|p| **p == c).count(), 1);
}

#[test]
fn full_transfer_spans_frame() {
    let fb = FrameBuffer::new(640, 480);
    assert_eq!(
        fb.transfer_full(),
        Transfer { src: SourceRegion::Full, dest: (0, 0), dims: (640, 480) }
    );
}

#[test]
fn point_transfer_uses_row_stride() {
    let fb = FrameBuffer::new(640, 480);
    assert_eq!(
        fb.transfer_point(5, 7),
        Transfer {
            src: SourceRegion::SubRectangle { coords: (5, 7), px_stride: 640 },
            dest: (5, 7),
            dims: (1, 1),
        }
    );
}
