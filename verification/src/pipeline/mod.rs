//! The asset pipeline's own logic: the source text it generates, the decisions its build
//! steps take, and the metadata file it keeps.

pub mod code_gen;
pub mod build_steps;
pub mod tiles;
pub mod metadata;
pub mod settings;
pub mod code_lines;
pub mod subpalette;
pub mod groups;
pub mod bank_builder;
pub mod bank_code;
