//! Scout: semantic search over a directory of images and videos.
//!
//! This crate holds the logic of the search engine, every function of it
//! verified: content hashes and the layout of the index, the decisions of a
//! scan, the ranking of search results, the sampling of video frames, the
//! ordering of clusters and the state of the directory watcher. Reading
//! files, running the models and the arithmetic on embeddings are left to
//! the program around it, which hands in plain values and takes plain values
//! back.
//!
//! Paths are handed in as texts with `/` between their components; the
//! module [`paths`] says how such a text is read.
//!
//! Fractions never enter the crate. A score, a distance or a weight is
//! carried as a [`scalar::Scalar`], an integer that orders as the value does;
//! a timestamp is carried as the bit pattern of its value.

pub mod cluster;
pub mod config;
pub mod encoder;
pub mod grouping;
pub mod hash;
pub mod ignore;
pub mod index;
pub mod indexer;
pub mod media;
pub mod models;
pub mod order;
pub mod outliers;
pub mod paths;
pub mod runtime;
pub mod scalar;
pub mod scan;
pub mod scout;
pub mod search;
pub mod settings;
pub mod sidecar;
pub mod text;
pub mod video;
pub mod watch;
