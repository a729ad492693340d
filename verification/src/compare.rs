//! What one user has seen and the other has not, and what both have seen.

use crate::film::{ids, lemma_ids_push, Film};
use crate::ranking::{is_stable_sort_of, lemma_sorted_from_given, sort_descending, Ranked};
use crate::rating::Rating;
use std::collections::{HashMap, HashSet};
use vstd::prelude::*;

verus! {

broadcast use vstd::std_specs::hash::group_hash_axioms;

/// Where a rating stands among the others: no rating stands below every
/// rating, and ratings stand by their half stars.
pub open spec fn standing(rating: Option<Rating>) -> int {
    match rating {
        Some(rating) => rating.0 as int + 1,
        None => 0,
    }
}

/// One more than the highest standing there is.
pub const STANDINGS: u32 = 257;

/// The standing of a rating, as a number to compute with.
pub fn standing_of(rating: &Option<Rating>) -> (place: u32)
    ensures
        place == standing(*rating),
        place < STANDINGS,
{
    match rating {
        Some(rating) => rating.0 as u32 + 1,
        None => 0,
    }
}

impl Ranked for Film {
    /// A film ranks by its rating.
    open spec fn rank(&self) -> int {
        standing(self.rating)
    }

    fn outranks(&self, other: &Film) -> (above: bool) {
        standing_of(&self.rating) > standing_of(&other.rating)
    }
}

/// A film that both users have seen, with the second user's rating of it.
impl Ranked for (Film, Option<Rating>) {
    /// A pair ranks by the first user's rating and, where two of those are
    /// equal, by the second user's.
    open spec fn rank(&self) -> int {
        standing(self.0.rating) * STANDINGS + standing(self.1)
    }

    fn outranks(&self, other: &(Film, Option<Rating>)) -> (above: bool) {
        let mine = standing_of(&self.0.rating);
        let theirs = standing_of(&other.0.rating);
        mine > theirs || (mine == theirs && standing_of(&self.1) > standing_of(&other.1))
    }
}

/// Picks the films that are not in `list`.
pub open spec fn absent_from(list: Seq<Film>) -> spec_fn(Film) -> bool {
    |film: Film| !ids(list).contains(film.id)
}

/// The place of the first film with this id in a list that has one.
pub open spec fn first_place(list: Seq<Film>, id: u64) -> int {
    choose|i: int|
        0 <= i < list.len() && #[trigger] list[i].id == id && forall|j: int|
            0 <= j < i ==> #[trigger] list[j].id != id
}

/// The rating of each film of a list, by the film's id. Where a list holds
/// an id twice, the first film with it counts.
pub open spec fn ratings_by_id(list: Seq<Film>) -> Map<u64, Option<Rating>> {
    Map::new(|id: u64| ids(list).contains(id), |id: u64| list[first_place(list, id)].rating)
}

/// Pairs a film that is in `list` with the rating it has there, and drops
/// one that is not.
pub open spec fn pairing(list: Seq<Film>) -> spec_fn(Film) -> Option<(Film, Option<Rating>)> {
    |film: Film|
        if ids(list).contains(film.id) {
            Some((film, ratings_by_id(list)[film.id]))
        } else {
            None
        }
}

/// The films of `movies1` that are not in `movies2`, in the order of
/// `movies1`.
pub open spec fn unshared(movies1: Seq<Film>, movies2: Seq<Film>) -> Seq<Film> {
    movies1.filter(absent_from(movies2))
}

/// The films of `movies1` that are in `movies2` too, each with the rating
/// that it has in `movies2`, in the order of `movies1`.
pub open spec fn shared(movies1: Seq<Film>, movies2: Seq<Film>) -> Seq<(Film, Option<Rating>)> {
    movies1.filter_map(pairing(movies2))
}

/// The first film with an id is found where no earlier film has the id.
proof fn lemma_first_place(list: Seq<Film>, id: u64, at: int)
    requires
        0 <= at < list.len(),
        list[at].id == id,
        forall|j: int| 0 <= j < at ==> #[trigger] list[j].id != id,
    ensures
        first_place(list, id) == at,
{
    let found = first_place(list, id);
    assert(0 <= found < list.len() && list[found].id == id && forall|j: int|
        0 <= j < found ==> #[trigger] list[j].id != id);
    if found < at {
        assert(list[found].id != id);
    } else if at < found {
        assert(list[at].id != id);
    }
}

/// An id of a list has a first film.
proof fn lemma_has_first_place(list: Seq<Film>, id: u64) -> (at: int)
    requires
        ids(list).contains(id),
    ensures
        0 <= at < list.len(),
        list[at].id == id,
        forall|j: int| 0 <= j < at ==> #[trigger] list[j].id != id,
        first_place(list, id) == at,
    decreases list.len(),
{
    let some = choose|i: int| 0 <= i < list.len() && #[trigger] list[i].id == id;
    let shorter = list.take(some);
    if ids(shorter).contains(id) {
        let at = lemma_has_first_place(shorter, id);
        assert(list[at] == shorter[at]);
        assert forall|j: int| 0 <= j < at implies #[trigger] list[j].id != id by {
            assert(list[j] == shorter[j]);
        }
        lemma_first_place(list, id, at);
        at
    } else {
        assert forall|j: int| 0 <= j < some implies #[trigger] list[j].id != id by {
            assert(shorter[j].id == id ==> ids(shorter).contains(id));
            assert(list[j] == shorter[j]);
        }
        lemma_first_place(list, id, some);
        some
    }
}

/// What one more film adds to the ratings of a list: its own rating, unless
/// the list has the id already.
proof fn lemma_ratings_grow(list: Seq<Film>, film: Film)
    ensures
        ids(list.push(film)) == ids(list).insert(film.id),
        ratings_by_id(list.push(film)) == if ids(list).contains(film.id) {
            ratings_by_id(list)
        } else {
            ratings_by_id(list).insert(film.id, film.rating)
        },
{
    let longer = list.push(film);
    lemma_ids_push(list, film);
    let grown = if ids(list).contains(film.id) {
        ratings_by_id(list)
    } else {
        ratings_by_id(list).insert(film.id, film.rating)
    };
    assert forall|id: u64| ids(longer).contains(id) implies #[trigger] ratings_by_id(longer)[id]
        == grown[id] by {
        if ids(list).contains(id) {
            let at = lemma_has_first_place(list, id);
            assert(longer[at] == list[at]);
            assert forall|j: int| 0 <= j < at implies #[trigger] longer[j].id != id by {
                assert(longer[j] == list[j]);
            }
            lemma_first_place(longer, id, at);
        } else {
            let last = list.len() as int;
            assert forall|j: int| 0 <= j < last implies #[trigger] longer[j].id != id by {
                assert(longer[j] == list[j]);
                assert(list[j].id == id ==> ids(list).contains(id));
            }
            lemma_first_place(longer, id, last);
        }
    }
    assert(ratings_by_id(longer) =~= grown);
}

/// Every pair of `shared` is a film of `movies1` that is in `movies2` too,
/// with the rating that the first film of its id has in `movies2`.
pub proof fn lemma_shared_members(movies1: Seq<Film>, movies2: Seq<Film>, i: int)
    requires
        0 <= i < shared(movies1, movies2).len(),
    ensures
        movies1.contains(shared(movies1, movies2)[i].0),
        ids(movies2).contains(shared(movies1, movies2)[i].0.id),
        shared(movies1, movies2)[i].1 == ratings_by_id(movies2)[shared(movies1, movies2)[i].0.id],
    decreases movies1.len(),
{
    let pairs = shared(movies1, movies2);
    if movies1.len() > 0 {
        let shorter = movies1.drop_last();
        let last = movies1.last();
        let before = shared(shorter, movies2);
        if i < before.len() {
            lemma_shared_members(shorter, movies2, i);
            assert(pairs[i] == before[i]);
            let from = choose|j: int| 0 <= j < shorter.len() && shorter[j] == before[i].0;
            assert(movies1[from] == before[i].0);
        } else {
            assert(pairs[i].0 == last);
            assert(movies1[movies1.len() - 1] == last);
        }
    }
}

/// The difference of two lists: the films of `movies1` that `movies2` has
/// not, best rated first. Unrated films come last, and films of equal
/// rating stay in the order of `movies1`. A film that `movies1` holds twice
/// is kept twice.
pub fn get_diff(movies1: Vec<Film>, movies2: Vec<Film>) -> (diff: Vec<Film>)
    ensures
        is_stable_sort_of(diff@, unshared(movies1@, movies2@)),
        forall|i: int|
            0 <= i < diff@.len() ==> ids(movies1@).contains(#[trigger] diff@[i].id) && !ids(
                movies2@,
            ).contains(diff@[i].id),
{
    let mut watched_by_2: HashSet<u64> = HashSet::new();
    let mut at: usize = 0;
    proof {
        lemma_no_ids();
        assert(movies2@.take(0) =~= Seq::<Film>::empty());
    }
    while at < movies2.len()
        invariant
            at <= movies2.len(),
            watched_by_2@ == ids(movies2@.take(at as int)),
        decreases movies2.len() - at,
    {
        proof {
            lemma_ids_push(movies2@.take(at as int), movies2@[at as int]);
            assert(movies2@.take(at + 1) =~= movies2@.take(at as int).push(movies2@[at as int]));
        }
        watched_by_2.insert(movies2[at].id);
        at += 1;
    }
    proof {
        assert(movies2@.take(at as int) =~= movies2@);
    }
    let ghost keep = absent_from(movies2@);
    let ghost all = movies1@;
    let mut diff: Vec<Film> = Vec::new();
    proof {
        reveal(Seq::filter);
        assert(all.take(0) =~= Seq::<Film>::empty());
    }
    for film in it: movies1
        invariant
            it.seq() == all,
            watched_by_2@ == ids(movies2@),
            keep == absent_from(movies2@),
            diff@ == all.take(it.index()).filter(keep),
    {
        proof {
            reveal(Seq::filter);
            assert(all.take(it.index() + 1).drop_last() =~= all.take(it.index()));
        }
        if !watched_by_2.contains(&film.id) {
            diff.push(film);
        }
    }
    proof {
        assert(all.take(all.len() as int) =~= all);
    }
    let ghost kept = diff@;
    sort_descending(&mut diff);
    proof {
        assert forall|i: int| 0 <= i < diff@.len() implies ids(all).contains(
            #[trigger] diff@[i].id,
        ) && !ids(movies2@).contains(diff@[i].id) by {
            lemma_sorted_from_given(diff@, kept, i);
            all.lemma_filter_contains_rev(keep, diff@[i]);
            let from = choose|j: int| 0 <= j < all.len() && all[j] == diff@[i];
            assert(all[from].id == diff@[i].id);
            let at = choose|j: int| 0 <= j < kept.len() && kept[j] == diff@[i];
            all.lemma_filter_pred(keep, at);
        }
    }
    diff
}

/// An empty list has no ids and no ratings.
proof fn lemma_no_ids()
    ensures
        ids(Seq::<Film>::empty()) == Set::<u64>::empty(),
        ratings_by_id(Seq::<Film>::empty()) == Map::<u64, Option<Rating>>::empty(),
{
    assert(ids(Seq::<Film>::empty()) =~= Set::<u64>::empty());
    assert(ratings_by_id(Seq::<Film>::empty()) =~= Map::<u64, Option<Rating>>::empty());
}

/// The intersection of two lists: the films of `movies1` that `movies2` has
/// too, each with the rating it has in `movies2`. The pairs are ordered by
/// the first rating, best first, and among equal first ratings by the
/// second, best first; a missing rating comes last either way. Pairs that
/// agree in both stay in the order of `movies1`. Where `movies2` holds a
/// film twice, its first rating of it counts.
pub fn get_and(movies1: Vec<Film>, movies2: Vec<Film>) -> (both: Vec<(Film, Option<Rating>)>)
    ensures
        is_stable_sort_of(both@, shared(movies1@, movies2@)),
        forall|i: int|
            0 <= i < both@.len() ==> {
                let pair = #[trigger] both@[i];
                &&& movies1@.contains(pair.0)
                &&& ids(movies2@).contains(pair.0.id)
                &&& pair.1 == ratings_by_id(movies2@)[pair.0.id]
            },
        forall|i: int, j: int|
            0 <= i < j < both@.len() ==> {
                let first = #[trigger] both@[i];
                let second = #[trigger] both@[j];
                standing(first.0.rating) > standing(second.0.rating) || (standing(first.0.rating)
                    == standing(second.0.rating) && standing(first.1) >= standing(second.1))
            },
{
    let mut watched_by_2: HashMap<u64, Option<Rating>> = HashMap::new();
    let mut at: usize = 0;
    proof {
        lemma_no_ids();
        assert(movies2@.take(0) =~= Seq::<Film>::empty());
    }
    while at < movies2.len()
        invariant
            at <= movies2.len(),
            watched_by_2@ == ratings_by_id(movies2@.take(at as int)),
        decreases movies2.len() - at,
    {
        proof {
            lemma_ratings_grow(movies2@.take(at as int), movies2@[at as int]);
            assert(movies2@.take(at + 1) =~= movies2@.take(at as int).push(movies2@[at as int]));
        }
        let film = &movies2[at];
        if !watched_by_2.contains_key(&film.id) {
            watched_by_2.insert(film.id, film.rating);
        }
        at += 1;
    }
    proof {
        assert(movies2@.take(at as int) =~= movies2@);
    }
    let ghost pair = pairing(movies2@);
    let ghost all = movies1@;
    let mut both: Vec<(Film, Option<Rating>)> = Vec::new();
    proof {
        assert(all.take(0) =~= Seq::<Film>::empty());
    }
    for film in it: movies1
        invariant
            it.seq() == all,
            watched_by_2@ == ratings_by_id(movies2@),
            pair == pairing(movies2@),
            both@ == all.take(it.index()).filter_map(pair),
    {
        proof {
            assert(all.take(it.index() + 1).drop_last() =~= all.take(it.index()));
        }
        let theirs: Option<Option<Rating>> = match watched_by_2.get(&film.id) {
            Some(rating) => Some(*rating),
            None => None,
        };
        match theirs {
            Some(rating) => {
                both.push((film, rating));
            },
            None => {},
        }
    }
    proof {
        assert(all.take(all.len() as int) =~= all);
    }
    let ghost pairs = both@;
    sort_descending(&mut both);
    proof {
        assert forall|i: int| 0 <= i < both@.len() implies {
            let pair = #[trigger] both@[i];
            &&& all.contains(pair.0)
            &&& ids(movies2@).contains(pair.0.id)
            &&& pair.1 == ratings_by_id(movies2@)[pair.0.id]
        } by {
            lemma_sorted_from_given(both@, pairs, i);
            let from = choose|j: int| 0 <= j < pairs.len() && pairs[j] == both@[i];
            lemma_shared_members(all, movies2@, from);
        }
        assert forall|i: int, j: int| 0 <= i < j < both@.len() implies {
            let first = #[trigger] both@[i];
            let second = #[trigger] both@[j];
            standing(first.0.rating) > standing(second.0.rating) || (standing(first.0.rating)
                == standing(second.0.rating) && standing(first.1) >= standing(second.1))
        } by {
            assert(both@[i].rank() >= both@[j].rank());
        }
    }
    both
}

} // verus!
