//! A user's list, from the cache where it is there and from the site where
//! it is not.
//!
//! Reading the cache, decoding a blob, fetching and storing are the
//! caller's work. After each of them the caller asks here what comes next.
//! `E` is the caller's error, which is handed on as it came.

use crate::film::Film;
use vstd::prelude::*;

verus! {

/// What the caller does next.
pub enum Step<E> {
    /// Turn the cached blob into the list.
    Decode(String),
    /// Fetch the list from the site.
    Fetch,
    /// Encode the list and write it to the cache.
    Store(Vec<Film>),
    /// Hand the list to whoever asked.
    Return(Vec<Film>),
    /// Report the failure.
    Fail(E),
}

/// What follows the look into the cache: a blob is decoded, a miss is
/// answered from the site, and a failed read is a failure, not a miss.
pub fn cached_get_movies<E>(found: Result<Option<String>, E>) -> (next: Step<E>)
    ensures
        next == match found {
            Ok(Some(blob)) => Step::<E>::Decode(blob),
            Ok(None) => Step::<E>::Fetch,
            Err(error) => Step::<E>::Fail(error),
        },
{
    match found {
        Ok(Some(blob)) => Step::Decode(blob),
        Ok(None) => Step::Fetch,
        Err(error) => Step::Fail(error),
    }
}

/// What follows the decoding of a cached blob: the list is returned. A blob
/// that does not decode is a failure; the site is not asked.
pub fn after_decode<E>(decoded: Result<Vec<Film>, E>) -> (next: Step<E>)
    ensures
        next == match decoded {
            Ok(films) => Step::<E>::Return(films),
            Err(error) => Step::<E>::Fail(error),
        },
{
    match decoded {
        Ok(films) => Step::Return(films),
        Err(error) => Step::Fail(error),
    }
}

/// What follows the fetch: the whole list is stored; a failed fetch stores
/// nothing.
pub fn after_fetch<E>(fetched: Result<Vec<Film>, E>) -> (next: Step<E>)
    ensures
        next == match fetched {
            Ok(films) => Step::<E>::Store(films),
            Err(error) => Step::<E>::Fail(error),
        },
{
    match fetched {
        Ok(films) => Step::Store(films),
        Err(error) => Step::Fail(error),
    }
}

/// What follows the write to the cache: the list is returned, whether the
/// write went well or not.
pub fn after_store<E>(films: Vec<Film>, stored: Result<(), E>) -> (next: Step<E>)
    ensures
        next == Step::<E>::Return(films),
{
    Step::Return(films)
}

} // verus!
