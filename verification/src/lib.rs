//! Audio level metering on exact fixed-point arithmetic.
//!
//! A buffer of interleaved 16-bit samples is split into channels, each
//! channel's root mean square is measured as a Q31 fraction of full scale,
//! turned into decibels relative to overload and scaled for display. Every
//! quantity is an integer or a ratio of integers, so each step has an exact
//! contract. The one irrational step, the logarithm, is supplied by the
//! caller.

pub mod buffer;
pub mod config;
pub mod decibels;
pub mod deinterleave;
pub mod format;
pub mod loudness;
pub mod render;
pub mod report;
pub mod sample;
pub mod scale;
pub mod snapshot;
