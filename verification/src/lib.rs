//! A small calendar library: an event record model, a codec between the
//! iCalendar wire form of a date-time and an internal offset-aware timestamp,
//! a total chronological order with an overlap predicate, an ingestion
//! adapter for parsed calendar components, and an ICS serializer.

pub mod adapter;
pub mod config;
pub mod event;
pub mod ordering;
pub mod report;
pub mod serialize;
pub mod text;
pub mod timestamp;
