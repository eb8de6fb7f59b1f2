//! Decision logic for a display-management command-line tool.
//!
//! The tool enumerates attached displays, reports and changes their video
//! modes, and reads and writes screen brightness. All queries and mutations
//! of display state go through platform frameworks; this library holds the
//! part that can be reasoned about: reconciling two display-identification
//! schemes (session-scoped numeric IDs and persistent UUIDs), deciding which
//! enumerated mode is current, grouping and sorting modes for presentation,
//! validating requests, and classifying framework results. Every value the
//! library works on is plain data handed in by the caller; fractional
//! quantities (refresh rates, scale factors, brightness) are carried in
//! thousandths so that all arithmetic is exact.

pub mod brightness;
pub mod commands;
pub mod display;
pub mod error;
pub mod listing;
pub mod mode;
pub mod watch;
