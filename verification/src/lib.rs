//! Compares the watched lists of two Letterboxd users.
//!
//! The crate holds the rules of the comparison service: the half-star
//! [`Rating`] and its glyphs, the [`Film`] record and how it is read from one
//! list item of a profile page, the page-by-page collection of a user's list,
//! the write-once cache, and the ordered difference and intersection of two
//! lists. Every function carries its contract. What is taken on trust, of
//! the HTML engine and of a few functions of std, is marked where it stands,
//! in [`markup`], [`decimal`], [`film`] and [`error`].

pub mod cache;
pub mod compare;
pub mod decimal;
pub mod error;
pub mod fetch;
pub mod film;
pub mod letterboxd;
pub mod markup;
pub mod ranking;
pub mod rating;
pub mod retrieval;

pub use cache::{FailureKind, FileCache, ReadAnswer, WriteAnswer};
pub use compare::{get_and, get_diff};
pub use error::{Fault, LetterboxdError};
pub use fetch::{FetchOutcome, FetchState, Phase, UserFetch};
pub use film::{Film, FilmView};
pub use letterboxd::{ItemMarkup, ItemView, LetterboxdClient};
pub use rating::{Rating, RatingError};
pub use retrieval::{cached_get_movies, Step};
