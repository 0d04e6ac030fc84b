//! Change detection and notification planning for a watched list of speed-camera sites.
//!
//! A published page lists the sites where speed cameras stand. This library decides what
//! follows from a fresh reading of that page: which sites are new against the baseline,
//! who is told about them and in what order, when the baseline is written again, how a
//! delivery is retried, and under which name the map of a site is cached. It performs no
//! input or output of its own. The program around it fetches, sends and writes, and
//! hands the library what it read and how each step went.
//!
//! - [`entity`]: sites and sets of sites.
//! - [`detect`]: the comparison of a listing with the baseline.
//! - [`registry`]: the subscribers and their preferences.
//! - [`fanout`]: the messages that follow from a comparison.
//! - [`delivery`]: the retry policy and the steps of one delivery.
//! - [`cache`] and [`image`]: names of cached maps, links to the map service, and the
//!   steps by which a map is come by.
//! - [`scheduler`] and [`pipeline`]: the stages of a check and the deciding part of it.
//! - [`store`] and [`page`]: reading the persisted documents and the published page.
//! - [`commands`] and [`report`]: what a request does and what its sender is told.
//! - [`text`]: the operations on characters that the rest is built on.

pub mod cache;
pub mod commands;
pub mod delivery;
pub mod detect;
pub mod entity;
pub mod fanout;
pub mod image;
pub mod page;
pub mod pipeline;
pub mod registry;
pub mod report;
pub mod scheduler;
pub mod store;
pub mod text;
