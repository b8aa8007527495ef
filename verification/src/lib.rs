//! Window-management logic of the Convenient Window helper: configuration
//! normalization, hot-zone geometry, window dragging and edge hiding.

pub mod geometry;
pub mod text;
pub mod config;
pub mod edge_hide_geometry;
pub mod window_rules;
pub mod entries;
pub mod edge_hide_model;
pub mod edge_hide_spec;
pub mod edge_hide;
pub mod edge_hide_laws;
pub mod window_drag;
pub mod hotzone;
pub mod auth;
pub mod ipc;
pub mod desktop;
pub mod config_normalize;
pub mod gesture_config;
pub mod gesture_laws;
pub mod engine_rules;
pub mod config_laws;
pub mod config_compare;
pub mod actions;
pub mod trigger;
pub mod gesture_shape;
pub mod adjustment_hud;
pub mod supervision;
