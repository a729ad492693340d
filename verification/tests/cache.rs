use letterboxd_diff::retrieval::{after_decode, after_fetch, after_store};
use letterboxd_diff::{cached_get_movies, FailureKind, FileCache, Film, ReadAnswer, Step, WriteAnswer};

fn cache() -> FileCache {
    FileCache::new::<&str>(Ok(())).expect("a cache")
}

fn film(id: u64) -> Film {
    Film { id, name: String::new(), url: String::new(), poster: String::new(), rating: None }
}

#[test]
fn the_cache_opens_on_a_new_or_an_old_directory() {
    assert!(FileCache::new::<&str>(Ok(())).is_ok());
    assert!(FileCache::new(Err((FailureKind::AlreadyExists, "exists"))).is_ok());
    assert!(matches!(FileCache::new(Err((FailureKind::NotFound, "no parent"))), Err("no parent")));
    assert!(matches!(FileCache::new(Err((FailureKind::Other, "denied"))), Err("denied")));
}

#[test]
fn a_key_lives_in_the_cache_directory() {
    assert_eq!(FileCache::cache_dir(), "./cache");
    assert_eq!(FileCache::get_cache_file("someone"), "./cache/someone");
    assert_eq!(FileCache::get_cache_file(""), "./cache/");
    assert_eq!(FileCache::get_cache_file("a_b-c"), "./cache/a_b-c");
}

#[test]
fn a_file_that_is_not_there_is_a_miss() {
    let found = cache().get(ReadAnswer::OpenFailed(FailureKind::NotFound, "no such file"));
    assert!(matches!(found, Ok(None)));
}

#[test]
fn a_file_that_is_there_is_a_hit() {
    let found = cache().get::<&str>(ReadAnswer::Contents("[1, 2]".to_string()));
    assert!(matches!(found, Ok(Some(blob)) if blob == "[1, 2]"));
    let found = cache().get::<&str>(ReadAnswer::Contents(String::new()));
    assert!(matches!(found, Ok(Some(blob)) if blob.is_empty()));
}

#[test]
fn a_failed_read_is_no_miss() {
    let found = cache().get(ReadAnswer::OpenFailed(FailureKind::Other, "denied"));
    assert!(matches!(found, Err("denied")));
    let found = cache().get(ReadAnswer::OpenFailed(FailureKind::AlreadyExists, "odd"));
    assert!(matches!(found, Err("odd")));
    let found = cache().get(ReadAnswer::ReadFailed("not utf-8"));
    assert!(matches!(found, Err("not utf-8")));
}

#[test]
fn a_second_write_of_a_key_succeeds_and_writes_nothing() {
    assert!(matches!(cache().insert::<&str>(WriteAnswer::Written), Ok(())));
    let stored = cache().insert(WriteAnswer::CreateFailed(FailureKind::AlreadyExists, "exists"));
    assert!(matches!(stored, Ok(())));
}

#[test]
fn a_failed_write_is_an_error() {
    let stored = cache().insert(WriteAnswer::CreateFailed(FailureKind::NotFound, "no directory"));
    assert!(matches!(stored, Err("no directory")));
    let stored = cache().insert(WriteAnswer::CreateFailed(FailureKind::Other, "denied"));
    assert!(matches!(stored, Err("denied")));
    let stored = cache().insert(WriteAnswer::WriteFailed("disk full"));
    assert!(matches!(stored, Err("disk full")));
}

#[test]
fn a_hit_is_decoded_and_a_miss_is_fetched() {
    assert!(matches!(cached_get_movies::<&str>(Ok(Some("blob".to_string()))), Step::Decode(blob) if blob == "blob"));
    assert!(matches!(cached_get_movies::<&str>(Ok(None)), Step::Fetch));
    assert!(matches!(cached_get_movies(Err("denied")), Step::Fail("denied")));
}

#[test]
fn a_corrupt_entry_is_a_failure_and_no_miss() {
    assert!(matches!(after_decode(Err("corrupt")), Step::Fail("corrupt")));
    assert!(matches!(after_decode::<&str>(Ok(vec![film(1), film(2)])), Step::Return(films) if films.len() == 2));
}

#[test]
fn a_fetched_list_is_stored_and_returned_whatever_the_write_does() {
    assert!(matches!(after_fetch::<&str>(Ok(vec![film(1)])), Step::Store(films) if films.len() == 1 && films[0].id == 1));
    assert!(matches!(after_fetch(Err("no such user")), Step::Fail("no such user")));
    assert!(matches!(after_store::<&str>(vec![film(1)], Ok(())), Step::Return(films) if films.len() == 1));
    assert!(matches!(after_store(vec![film(1), film(2)], Err("disk full")), Step::Return(films) if films.len() == 2));
}
