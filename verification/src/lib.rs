//! The decision logic of a drafting application: part lists, drawing frames,
//! settings, layer stacking, dimension annotations and the state machines that
//! stand behind its user interface.

pub mod app_frame;
pub mod bom;
pub mod canvas;
pub mod config;
pub mod dim_panel;
pub mod dims;
pub mod filing;
pub mod frame;
pub mod gesture;
pub mod iso;
pub mod layers;
pub mod overlay;
pub mod paths;
pub mod session;
pub mod shortcuts;
pub mod sheet;
pub mod sheet_panel;
pub mod stacking;
pub mod select;
pub mod strokes;
pub mod text;
pub mod tools;
