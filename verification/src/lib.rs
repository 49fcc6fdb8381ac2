//! Capturing the screen of a Wayland compositor.
pub mod binary64;
pub mod canvas;
pub mod connection;
pub mod convert;
pub mod dispatch;
pub mod egl;
pub mod error;
pub mod ext_image_protocols;
pub mod output;
pub mod overlay;
pub mod region;
pub mod screencopy;
pub mod screenshot;
pub mod setup;
pub mod shm;
pub mod text;
pub mod toplevel;
pub mod turn;
pub mod wire;

pub use connection::{ExtBase, WayshotConnection};
pub use error::WayshotError;
