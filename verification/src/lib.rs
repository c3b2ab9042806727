//! Captures the screen with DXGI.
//!
//! The library decides, and computes the picture; the calls into the system are made by its caller.
//! [`DXGIManager`] begins a piece of work and hands it out. The caller asks the work for the call
//! that is due, makes the call, and hands the reply back, until no call is due any more.
pub mod acquire;
pub mod calls;
pub mod capture;
pub mod com;
pub mod desktop;
pub mod frame;
pub mod hresult;
pub mod manager;
pub mod picture;
pub mod pixel;
pub mod refs;
pub mod runs;
pub mod source;
pub mod steps;
pub mod text;
pub mod time;
pub mod trace;

pub use crate::capture::CaptureError;
pub use crate::com::UniqueCOMPtr;
pub use crate::hresult::{hr_failed, HRESULT};
pub use crate::manager::DXGIManager;
pub use crate::pixel::{BGRA8, DXGI_PIXEL_SIZE};
pub use crate::time::Duration;
