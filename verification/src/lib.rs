//! A status-line generator library: it interprets raw text read from the
//! kernel's hardware-monitoring files (CPU temperature, battery charge and
//! state) and renders one formatted text line for a window-manager status
//! bar, joining the present fragments with a fixed separator.

pub mod numbers;
pub mod reading;
pub mod metrics;
pub mod render;
pub mod laws;
