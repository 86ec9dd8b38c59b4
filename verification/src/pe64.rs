//! 64-bit (PE32+) images.

pub mod address;
pub mod file;
pub mod headers;
pub mod image;
pub mod model;
pub mod pe;
pub mod ptr;
pub mod view;

pub use file::PeFile;
pub use image::{Rva, Va};
pub use pe::{Align, Pe};
pub use ptr::Ptr;
pub use view::PeView;
