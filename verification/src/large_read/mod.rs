//! Reactive large-read proxy: classify model-initiated large file reads
//! (`cat <file>`, `sed -n '<start>,<end>p' <file>` with a large range) and,
//! for the eligible ones, build a compact set of slices to return instead of
//! the whole file. The model bypasses by repeating the exact same command;
//! the caller keeps a per-session registry keyed on the normalized command.
//! Everything here is a pure function of (command string, file content).
pub mod classifier;
pub mod proxy;
pub mod renderer;
pub mod slice;
