//! Classification and aggregation of a user's public activity events into a
//! digest grouped by repository and topic.
//!
//! A run goes through the modules in this order: [`window`] checks that the
//! fetched page of events reaches back to the cutoff, [`classify`] maps each
//! event to the interaction it records, [`aggregate`] folds the interactions
//! into a digest, and [`render`] turns the digest into text, with titles
//! made display-safe by [`sanitize`]. [`digest`] ties the first three
//! together. [`credential`] decides whether a stored access grant may be
//! used again.

pub mod action;
pub mod aggregate;
pub mod assoc;
pub mod classify;
pub mod config;
pub mod credential;
pub mod digest;
pub mod error;
pub mod event;
pub mod render;
pub mod sanitize;
pub mod text;
pub mod time;
pub mod topic;
pub mod window;
