//! Propose new names for media files after their entries in IMDb.
//!
//! A [`Renamer`] is an entity linker: it connects a file path that follows a pattern with
//! an entry of IMDb. [`Renamer::propose_one`] reads a [`Candidate`] off a path, and says
//! what to ask of IMDb first. Each answer leads to the next [`Step`], until the entity is
//! found and [`Candidate::proposal`] makes a [`RenameProposal`] after it.
//! [`Renamer::propose`] then settles on a set of proposals that can be carried out
//! together.
//!
//! The library does no input or output: it neither searches nor touches the file system.
pub mod candidate;
pub mod entity;
pub mod error;
pub mod laws;
pub mod paths;
pub mod patterns;
pub mod proposal;
pub mod query;
pub mod renamer;
pub mod text;

pub use candidate::{Candidate, CandidateAny, CandidateEpisode, CandidateKind, CandidatePath};
pub use entity::{Episode, MediaEntity, Pick, Scored, SearchResults, Title, TitleKind};
pub use error::RenameError;
pub use proposal::{Attempt, RenameProposal};
pub use query::{Query, QueryCache};
pub use renamer::{EpisodeRequest, Renamer, RenamerBuilder, Step};
