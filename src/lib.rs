//! A filesystem-backed cache for the media that archived posts refer to.
#![allow(non_snake_case)]

mod text;
pub mod cohost;
pub mod path;
pub mod fetch;
pub mod job;
pub mod attachments;
