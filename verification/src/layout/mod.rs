//! Layout management: reconstruction of a layout from pane geometry, capture
//! and drift detection, capture scheduling, and target resolution.

pub mod capture;
pub mod timer;
pub mod snapshot;
pub mod targeting;
pub mod templates;
