//! Continuous video segmentation and publication: the decisions behind
//! cutting a live source into transport-stream segments, naming them,
//! indexing them by wall-clock time, retrying their upload, and serving
//! HLS playlists over time ranges.

pub mod decimal;
pub mod timebase;
pub mod chunk;
pub mod playlist;
pub mod db;
pub mod upload;
pub mod roller;
pub mod execution;
