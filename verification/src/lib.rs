//! The core of a page that lists the episodes of a podcast with the recommendations
//! that listeners attach to them.
//!
//! The heart is the [`RecommendationStore`]: for each episode key the ordered list of
//! its recommendations, with additions at the end and deletions by position. The
//! modules around it gather the episodes from a feed, derive the key of an episode
//! from its title, and say what the page shows of each episode. Reading the feed from
//! the network, keeping the store in a file and writing the page out are left to the
//! program that uses the library; so is the one lock behind which a server shares the
//! store, whose effect [`laws`] describes: whatever order the lock gives the
//! additions, none is lost.

pub mod episode;
pub mod feed;
pub mod feed_reader;
pub mod html;
pub mod laws;
pub mod page;
pub mod recommendation;
pub mod store;
pub mod text;

pub use episode::Episode;
pub use recommendation::Recommendation;
pub use store::{EpisodeEntry, RecommendationStore};
