//! A music catalog, browsed through flat ids.
//!
//! The catalog is built from album metadata ([`metadata`]) and indexed once
//! ([`repo`]). A client then walks it one node at a time: every category,
//! subcategory, album and track is named by an id ([`ids`]), and asking for
//! the node of an id gives the ids of what stands below it ([`browse`]).
//! Tracks can also be picked at random ([`sampling`]).
//!
//! The library keeps no connection of its own. What it needs from outside, the
//! albums and categories of the repository and the catalogs that the audio
//! backend can serve, is handed in as plain values; what it gives back are
//! plain records ([`models`]).

pub mod auth;
pub mod backend;
pub mod browse;
pub mod config;
pub mod ids;
pub mod metadata;
pub mod models;
pub mod repo;
pub mod response;
pub mod sampling;
pub mod text;
