//! A day-by-day diary: one entry per calendar day with free text and optional
//! weight and waist measurements, a cursor-aware edit buffer for composing an
//! entry, and the series of points that a trend graph of the measurements plots.

pub mod app;
pub mod buffer;
pub mod date;
pub mod entry;
pub mod graph;
pub mod measure;
pub mod text;
pub mod todo;
