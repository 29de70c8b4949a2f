//! Discovers the episodes of a TV show in a season-paginated catalog, picks each
//! episode's media and subtitle locations, names the files they are saved under,
//! and decides what a download of an episode has to transfer.

pub mod models;
pub mod naming;
pub mod text;
pub mod media;
pub mod catalog;
pub mod downloader;
pub mod requests;
