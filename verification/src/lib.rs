//! Timing side-channel auditing of your own HTTP endpoints: the verified
//! core. Request scheduling, sample-size planning, report verdicts and
//! the reports themselves, argument parsing and the terminal layout live
//! here; the HTTP measurements and the floating-point statistics are
//! driven by the command-line program around it, which hands the measured
//! figures over already written out as text.
pub mod ansi;
pub mod args;
pub mod doctor;
pub mod injection;
pub mod plan;
pub mod render;
pub mod report;
pub mod rng;
pub mod sampler;
pub mod stats;
pub mod style;
pub mod text;
pub mod verdict;
