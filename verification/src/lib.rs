//! Week-aligned month calendars built from per-day holiday records.
//!
//! A day-information provider delivers one record per calendar day of a month.
//! This library turns the records of three adjacent months into the grid of
//! complete Monday-to-Sunday weeks that covers the middle month, and keeps the
//! grids it has built in a cache keyed by year and month.

pub mod year_month;
pub mod error;
pub mod faboul;
pub mod serde_util;
pub mod window;
pub mod calendar;
pub mod cache;
pub mod logging;
