//! Period boundary engine and reflection reminder scheduler for a
//! three-level (daily / weekly / monthly) goal tracker.
//!
//! The library classifies timestamps into calendar periods for a
//! configurable week-start day, derives canonical period keys, detects
//! period transitions between two observations, and drives the
//! de-duplicated reminder state machine. Storage and notification are
//! collaborators supplied by the embedding application.
pub mod calendar;
pub mod keys;
pub mod localtime;
pub mod menu;
pub mod models;
pub mod period;
pub mod reminder;
pub mod text;
