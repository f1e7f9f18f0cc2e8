//! Batch transcoding of static web assets.
//!
//! For every regular file of an input tree the library decides which derived
//! artifacts belong under the output tree, where each of them goes, and what
//! it holds: compressed byte streams for generic files, re-encoded and resized
//! variants for images. The library works on plain values only. Reading the
//! sources and writing the artifacts is left to the caller.
//!
//! A caller makes a [`Config`] once, hands each file to [`process_entry`] and
//! writes the artifacts of the [`PipelineRun`] that comes back, in their
//! order and as the policy of each says. What a run has to look like is said
//! by a plan: see [`artifact::follows`].

pub mod artifact;
pub mod bytes;
pub mod classify;
pub mod codec;
pub mod config;
pub mod decimal;
pub mod error;
pub mod generic;
pub mod path;
pub mod picture;
pub mod pipeline;
pub mod raster;
pub mod transcode;

pub use artifact::{Artifact, ArtifactKind, OnExisting, Payload, PipelineRun, WriteAction};
pub use classify::{classify, FileCategory};
pub use config::{Config, Settings, Tier, WebPQualityConfig};
pub use error::{ConfigError, Error};
pub use generic::generic_compress;
pub use path::{add_extension, gen_path};
pub use pipeline::{process_entry, run_batch, AggregateStatus, SourceFile};
pub use transcode::{dynamic_render, image_compress};
