//! Screen color picking: exact color formatting, pixel decoding, loupe
//! sampling and the capture history of the picker.
pub mod color;
pub mod history;
mod notice;
pub mod sampler;
mod text;

pub use color::{hsl_string, hsv_string, HueSector, Rgb};
pub use sampler::{CaptureRegion, LoupeCapture};
pub use history::{History, HISTORY_LIMIT};
pub use notice::{copied_notice, notice_expired, NOTICE_NANOS};
