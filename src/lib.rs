//! Progress tracking for weekly course exercises.
//!
//! A semester tree is laid out as `semester/course/week`, where each week
//! folder is named after the Monday that anchors it. The library decides
//! which folders to look at, which files in a week folder are the task sheet
//! and the solution document, counts the markers in each and condenses the
//! result into a small numeric summary.

pub mod classify;
pub mod date;
pub mod markers;
pub mod pdf;
pub mod scan;
pub mod text;
