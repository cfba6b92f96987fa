//! Analysis engine for media bitrate inspection.
//!
//! The library turns the output of a probe tool into bitrate series and
//! statistics, and it schedules the jobs that do so. Its parts:
//!
//! - [`jobs`] and [`queue_model`]: the bounded-parallel job queue and the
//!   laws that every state of the queue obeys;
//! - [`probe`], [`packets`], [`frames`] and [`json`]: the invocations of the
//!   probe tool and the parsers of its output;
//! - [`aggregate`], [`statistics`], [`sampling`] and [`analysis`]: the
//!   binning of frames into intervals, the summary statistics with peak
//!   detection, the sampling of very large files, and the assembly of
//!   results;
//! - [`hasher`], [`probe_cache`] and [`locate`]: the content-identity hash,
//!   the session cache of metadata probes, and the search for the tools;
//! - [`streams`], [`metadata`], [`removal`], [`removal_jobs`], [`filters`],
//!   [`dates`], [`listing`], [`rename`], [`preview`], [`grouping`],
//!   [`labels`], [`folders`], [`config`], [`installer`], [`packages`],
//!   [`downloads`] and [`result_cache`]: what the file browser around the
//!   analysis decides and computes;
//! - [`text`], [`paths`], [`textmap`] and [`ties`]: texts, paths, maps
//!   keyed by text, and the order of items that a sort cannot tell apart.
//!
//! Times are counted in whole microseconds and sizes in bytes. The library
//! touches no file and no process: what the file system and the tools say
//! is handed in as plain values. It reads the clock for the time at which a
//! job or a cache entry was made, and the time zone of the machine where a
//! date without an offset has to be read as a point in time.

pub mod aggregate;
pub mod analysis;
pub mod config;
pub mod dates;
pub mod downloads;
pub mod files;
pub mod filters;
pub mod folders;
pub mod frames;
pub mod grouping;
pub mod hasher;
pub mod installer;
pub mod jobs;
pub mod json;
pub mod labels;
pub mod listing;
pub mod locate;
pub mod metadata;
pub mod packages;
pub mod packets;
pub mod paths;
pub mod preview;
pub mod probe;
pub mod probe_cache;
pub mod progress;
pub mod queue_model;
pub mod removal;
pub mod removal_jobs;
pub mod rename;
pub mod result_cache;
pub mod sampling;
pub mod statistics;
pub mod streams;
pub mod text;
pub mod textmap;
pub mod ties;
