//! The record of one watched film.

use crate::rating::Rating;
use std::hash::{Hash, Hasher};
use vstd::prelude::*;
use vstd::std_specs::cmp::PartialEqSpec;
use vstd::std_specs::cmp::PartialEqSpecImpl;

verus! {

/// One film of a user's watched list.
///
/// The site's numeric id is the film's identity: two records with the same
/// id are the same film, whatever their other fields say.
#[derive(Debug)]
pub struct Film {
    pub id: u64,
    pub name: String,
    pub url: String,
    pub poster: String,
    /// The user's rating; `None` when the user gave none.
    pub rating: Option<Rating>,
}

/// A film as plain values.
pub struct FilmView {
    pub id: u64,
    pub name: Seq<char>,
    pub url: Seq<char>,
    pub poster: Seq<char>,
    pub rating: Option<Rating>,
}

impl View for Film {
    type V = FilmView;

    open spec fn view(&self) -> FilmView {
        FilmView {
            id: self.id,
            name: self.name@,
            url: self.url@,
            poster: self.poster@,
            rating: self.rating,
        }
    }
}

impl PartialEq for Film {
    /// Films are equal when their ids are.
    fn eq(&self, other: &Film) -> (same: bool) {
        self.id == other.id
    }
}

impl Eq for Film {

}

impl PartialEqSpecImpl for Film {
    open spec fn obeys_eq_spec() -> bool {
        true
    }

    open spec fn eq_spec(&self, other: &Film) -> bool {
        self.id == other.id
    }
}

/// `<u64 as Hash>::hash` of std feeds the integer to the hasher. Nothing is
/// claimed of the hasher's state afterwards.
pub assume_specification<H: Hasher>[ <u64 as Hash>::hash ](value: &u64, state: &mut H);

impl Hash for Film {
    /// Feeds the id, and nothing else, to the hasher.
    fn hash<H: Hasher>(&self, state: &mut H) {
        self.id.hash(state)
    }
}

/// The ids of the films of a list.
pub open spec fn ids(list: Seq<Film>) -> Set<u64> {
    Set::new(|id: u64| exists|i: int| 0 <= i < list.len() && #[trigger] list[i].id == id)
}

/// Whether no two films of a list share an id.
pub open spec fn distinct_ids(list: Seq<Film>) -> bool {
    forall|i: int, j: int|
        0 <= i < j < list.len() ==> #[trigger] list[i].id != #[trigger] list[j].id
}

/// What one more film adds to the ids of a list.
pub proof fn lemma_ids_push(list: Seq<Film>, film: Film)
    ensures
        ids(list.push(film)) == ids(list).insert(film.id),
{
    let longer = list.push(film);
    assert forall|id: u64| ids(longer).contains(id) <==> ids(list).insert(film.id).contains(
        id,
    ) by {
        if ids(longer).contains(id) {
            let i = choose|i: int| 0 <= i < longer.len() && #[trigger] longer[i].id == id;
            if i < list.len() {
                assert(list[i].id == id);
            }
        }
        if ids(list).contains(id) {
            let i = choose|i: int| 0 <= i < list.len() && #[trigger] list[i].id == id;
            assert(longer[i].id == id);
        }
        if id == film.id {
            assert(longer[list.len() as int].id == id);
        }
    }
    assert(ids(longer) =~= ids(list).insert(film.id));
}

/// Records with the same id compare equal, whatever their names, addresses
/// and ratings are; records with different ids never do.
pub proof fn lemma_equality_is_by_id(a: Film, b: Film)
    ensures
        PartialEqSpec::eq_spec(&a, &b) <==> a.id == b.id,
{
}

} // verus!
