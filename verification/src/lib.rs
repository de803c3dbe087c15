//! Thermal camera capture pipeline: frame decoding, temperature grids and
//! their transforms, display-range smoothing, measurement probes and the
//! recorder life cycle, all in fixed-point arithmetic.

pub mod auto_display_range_controller;
pub mod camera_adapter;
pub mod color_image;
pub mod dynamic_range_curve;
pub mod fixed_point;
pub mod gizmos;
pub mod grid;
pub mod history_data_collector;
pub mod recorders;
pub mod temperature;
pub mod thermal_capturer;
pub mod thermal_data;
pub mod thermal_gradient;
pub mod types;
pub mod user_preferences;
pub mod user_preferences_window;
pub mod util;
