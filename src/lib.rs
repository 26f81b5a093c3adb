pub mod bmp;
pub mod frame;
pub mod pixel;
pub mod slideshow;
