//! A client library for a federated link aggregator: the wire types of its
//! API, an infinitely scrolling feed that pages, deduplicates and restores
//! its items, and the rebuilding of comment trees from materialized paths.
pub mod comment;
pub mod comments;
pub mod community;
pub mod feed;
pub mod forest_laws;
pub mod instance;
pub mod language;
pub mod local_user;
pub mod media;
pub mod path;
pub mod person;
pub mod post;
pub mod request;
pub mod settings;
pub mod site;
pub mod sorting;
pub mod time;
pub mod voter;
