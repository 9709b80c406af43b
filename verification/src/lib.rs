//! Vexell's conversion logic: the decisions that turn a request into output
//! formats, output paths, pixel fix-ups, a quality search for a size target,
//! and the interactive wizard's flow, each with a checked contract.

pub mod text;
pub mod paths;
pub mod format;
pub mod pixels;
pub mod targeting;
pub mod settings;
pub mod wizard;
pub mod shell;
pub mod batch;
pub mod order;
