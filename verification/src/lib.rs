//! Verified core of a command-line screen recorder and video cutter.

pub mod text;
pub mod digits;
pub mod timespec;
pub mod cli;
pub mod output;
pub mod ffmpeg;
pub mod capture;
pub mod terminal;
pub mod cut;
pub mod label;
