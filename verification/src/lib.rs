//! Tracing one author through a canvas edit history.
//!
//! A canvas history is an append-only log of pixel placements: who put which
//! colour where, and when.  This library reads the records of such a log,
//! narrows the set of authors down to those who touched a number of search
//! areas, and replays the log to find which tiles of one author were still
//! theirs at a chosen line of the log and at its end.
//!
//! Every function is verified against a contract stated over mathematical
//! models of the data.

pub mod candidates;
pub mod geometry;
pub mod last_writer;
pub mod raster;
pub mod record;
pub mod render;
pub mod replay;
pub mod scan_laws;
pub mod scanner;
pub mod search;
pub mod sequences;
pub mod text;
pub mod tiles;
pub mod timestamp;
