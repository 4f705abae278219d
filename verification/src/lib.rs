//! Option models, geometry and decision logic of an image optimisation pipeline.
pub mod adapters;
pub mod auto_format;
pub mod cli;
pub mod color;
pub mod coord;
pub mod crop;
pub mod decimal;
pub mod encoders;
pub mod format;
pub mod gravity;
pub mod options;
pub mod pipeline;
pub mod pixels;
pub mod text;
