use letterboxd_diff::{Film, Rating};
use std::collections::hash_map::DefaultHasher;
use std::collections::HashSet;
use std::hash::{Hash, Hasher};

fn film(id: u64, name: &str, rating: Option<u8>) -> Film {
    Film {
        id,
        name: name.to_string(),
        url: format!("https://letterboxd.com/film/{}", name),
        poster: format!("https://a.ltrbxd.com/{}.jpg", name),
        rating: rating.map(Rating),
    }
}

fn hash_of(film: &Film) -> u64 {
    let mut hasher = DefaultHasher::new();
    film.hash(&mut hasher);
    hasher.finish()
}

#[test]
fn films_with_one_id_are_equal() {
    let first = film(7, "heat", Some(8));
    let second = film(7, "ronin", None);
    assert!(first == second);
    assert_eq!(first, second);
}

#[test]
fn films_with_different_ids_differ() {
    let first = film(7, "heat", Some(8));
    let second = film(8, "heat", Some(8));
    assert!(first != second);
}

#[test]
fn films_with_one_id_hash_alike() {
    let first = film(7, "heat", Some(8));
    let second = film(7, "ronin", None);
    assert_eq!(hash_of(&first), hash_of(&second));
}

#[test]
fn a_film_hashes_as_its_id() {
    let mut hasher = DefaultHasher::new();
    7u64.hash(&mut hasher);
    assert_eq!(hash_of(&film(7, "heat", Some(8))), hasher.finish());
}

#[test]
fn a_set_holds_one_film_per_id() {
    let mut set = HashSet::new();
    assert!(set.insert(film(7, "heat", Some(8))));
    assert!(!set.insert(film(7, "ronin", None)));
    assert!(set.insert(film(8, "ronin", None)));
    assert_eq!(set.len(), 2);
    assert_eq!(set.get(&film(7, "other", None)).map(|f| f.name.as_str()), Some("heat"));
}
