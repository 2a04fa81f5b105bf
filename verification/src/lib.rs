//! A minimal, leveled, format-configurable logging facility.
//!
//! A [`ez_logger::Logger`] filters messages by severity, renders them through
//! a configurable template, and hands the rendered record to a pluggable
//! output sink.  The timestamp and record templates substitute a fixed,
//! known set of named placeholders; an unknown placeholder or malformed
//! substitution syntax is reported as an error rather than silently dropped.

pub mod ez_logger;
pub mod template;
pub mod timestamp;
