//! Static security analysis of GitHub Actions workflow files.

pub mod analyzers;
pub mod line_index;
pub mod models;
pub mod parser;
pub mod rules;
pub mod scan;
pub mod text;
pub mod yaml;
