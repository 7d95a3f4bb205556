pub mod apply;
pub mod background;
pub mod edit;
pub mod error;
pub mod files;
pub mod line_patch;
pub mod names;
pub mod patch;
pub mod paths;
pub mod result;
pub mod runtime;
pub mod walk;
