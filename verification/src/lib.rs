//! Boot-stage display library: framebuffer negotiation with the boot
//! loader, a pixel surface with verified offset arithmetic, and a
//! line-oriented diagnostic console with cursor tracking, wrapping and
//! scrolling.

pub mod console;
pub mod entry;
pub mod framebuffer;
pub mod negotiate;
