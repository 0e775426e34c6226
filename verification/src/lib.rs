//! Verified core of a layer slicer for FDM 3D printing.
//!
//! The geometric parts of slicing work on floating-point coordinates and live
//! outside this crate; what is here is the combinatorial and bookkeeping logic
//! around them: the triangle-tower ring algorithm, the printer command model and
//! its optimizer, G-code instruction templates, settings merging and the index
//! arithmetic used by the layer passes.
pub mod chains;
pub mod commands;
pub mod error;
pub mod gcode;
pub mod layers;
pub mod loader;
pub mod optimizer;
pub mod settings;
pub mod settings_files;
pub mod slow_down;
pub mod template;
pub mod tower;
pub mod types;
pub mod vertex_order;
