use letterboxd_diff::fetch::{page_url, wants_body, MAX_IN_FLIGHT, NOT_FOUND};
use letterboxd_diff::{FetchOutcome, Film, LetterboxdClient, LetterboxdError, Phase, Rating, UserFetch};

fn client() -> LetterboxdClient {
    LetterboxdClient::new().expect("the selectors compile")
}

fn first_page(last: Option<usize>) -> String {
    let control = match last {
        Some(last) => format!(
            "<div class=\"pagination\"><ul><li class=\"paginate-page\"><a href=\"#\">2</a></li>\
             <li class=\"paginate-page\"><a href=\"#\">{}</a></li></ul></div>",
            last
        ),
        None => String::new(),
    };
    format!("<html><body>{}{}</body></html>", body_items(&[(1, Some("★"))]), control)
}

fn body_items(films: &[(u64, Option<&str>)]) -> String {
    let items: String = films
        .iter()
        .map(|(id, glyph)| {
            let marker = glyph.map(|g| format!("<span class=\"rating\">{}</span>", g)).unwrap_or_default();
            format!(
                "<li class=\"griditem\"><div class=\"react-component\" data-film-id=\"{0}\" \
                 data-item-slug=\"film-{0}\"><img src=\"p{0}.jpg\" alt=\"Film {0}\"></div>{1}</li>",
                id, marker
            )
        })
        .collect();
    format!("<ul>{}</ul>", items)
}

fn film(id: u64) -> Film {
    Film { id, name: String::new(), url: String::new(), poster: String::new(), rating: None }
}

#[test]
fn page_addresses_are_exact() {
    assert_eq!(page_url("someone", 1), "https://letterboxd.com/someone/films/page/1");
    assert_eq!(page_url("a_b", 120), "https://letterboxd.com/a_b/films/page/120");
    let fetch = UserFetch::new("someone");
    assert_eq!(fetch.first_url(), "https://letterboxd.com/someone/films/page/1");
    assert_eq!(fetch.url_of(37), "https://letterboxd.com/someone/films/page/37");
}

#[test]
fn a_fetch_begins_by_discovering() {
    let mut fetch = UserFetch::new("someone");
    assert_eq!(fetch.phase(), Phase::Discovering);
    assert_eq!(fetch.next_page(), None);
    assert!(matches!(fetch.into_outcome(), FetchOutcome::Pending));
    let mut fetch = client().get_movies_of_user("someone");
    assert_eq!(fetch.phase(), Phase::Discovering);
    assert_eq!(fetch.first_url(), "https://letterboxd.com/someone/films/page/1");
    assert_eq!(fetch.next_page(), None);
}

#[test]
fn a_missing_user_ends_the_fetch_at_once() {
    assert_eq!(NOT_FOUND, 404);
    assert!(!wants_body(404));
    assert!(wants_body(200));
    assert!(wants_body(299));
    assert!(!wants_body(199));
    assert!(!wants_body(300));
    assert!(!wants_body(500));
    let mut fetch = UserFetch::new("nobody");
    fetch.on_first_page(&client(), 404, &first_page(Some(9)));
    assert_eq!(fetch.phase(), Phase::Failed);
    assert_eq!(fetch.next_page(), None);
    fetch.on_page(&client(), 200, &body_items(&[(1, None)]));
    fetch.on_first_page(&client(), 200, &first_page(Some(9)));
    fetch.on_transport_failure();
    assert_eq!(fetch.next_page(), None);
    assert_eq!(fetch.phase(), Phase::Failed);
    assert!(matches!(fetch.into_outcome(), FetchOutcome::Failed(LetterboxdError::UserNotFound(user)) if user == "nobody"));
}

#[test]
fn a_profile_of_one_page_is_fetched_once_more() {
    let mut fetch = UserFetch::new("someone");
    fetch.on_first_page(&client(), 200, &first_page(None));
    assert_eq!(fetch.phase(), Phase::Collecting);
    assert_eq!(fetch.next_page(), Some(1));
    assert_eq!(fetch.next_page(), None);
    fetch.on_page(&client(), 200, &body_items(&[(5, Some("★★")), (6, None)]));
    assert_eq!(fetch.phase(), Phase::Finished);
    assert_eq!(fetch.next_page(), None);
    match fetch.into_outcome() {
        FetchOutcome::Films(films) => {
            assert_eq!(films.iter().map(|film| film.id).collect::<Vec<_>>(), vec![5, 6]);
            assert_eq!(films[0].rating, Some(Rating(4)));
            assert_eq!(films[1].rating, None);
        }
        other => panic!("unexpected outcome {:?}", other),
    }
}

#[test]
fn pages_are_handed_out_five_at_a_time() {
    assert_eq!(MAX_IN_FLIGHT, 5);
    let mut fetch = UserFetch::new("someone");
    fetch.on_first_page(&client(), 200, &first_page(Some(12)));
    let mut handed_out = Vec::new();
    while let Some(page) = fetch.next_page() {
        handed_out.push(page);
    }
    assert_eq!(handed_out, vec![1, 2, 3, 4, 5]);
    fetch.record_page(200, Ok(vec![film(30)]));
    assert_eq!(fetch.next_page(), Some(6));
    assert_eq!(fetch.next_page(), None);
    fetch.record_page(200, Ok(vec![]));
    fetch.record_page(200, Ok(vec![film(10), film(11)]));
    assert_eq!(fetch.next_page(), Some(7));
    assert_eq!(fetch.next_page(), Some(8));
    assert_eq!(fetch.next_page(), None);
    let mut answered = 3;
    let mut in_flight = 5;
    while fetch.phase() == Phase::Collecting {
        fetch.record_page(200, Ok(vec![film(100 + answered)]));
        answered += 1;
        in_flight -= 1;
        while let Some(page) = fetch.next_page() {
            handed_out.push(page);
            in_flight += 1;
            assert!(in_flight <= 5);
        }
    }
    assert_eq!(answered, 12);
    assert_eq!(fetch.phase(), Phase::Finished);
    match fetch.into_outcome() {
        FetchOutcome::Films(films) => {
            assert_eq!(films.len(), 12);
            assert_eq!(films[0].id, 30);
            assert_eq!(films[1].id, 10);
            assert_eq!(films[2].id, 11);
            assert_eq!(films[11].id, 111);
        }
        other => panic!("unexpected outcome {:?}", other),
    }
}

#[test]
fn a_body_that_nobody_waits_for_changes_nothing() {
    let mut fetch = UserFetch::new("someone");
    fetch.on_page(&client(), 200, &body_items(&[(1, None)]));
    assert_eq!(fetch.phase(), Phase::Discovering);
    fetch.on_first_page(&client(), 200, &first_page(Some(2)));
    fetch.record_page(200, Ok(vec![film(1)]));
    assert_eq!(fetch.next_page(), Some(1));
    assert_eq!(fetch.next_page(), Some(2));
    fetch.on_first_page(&client(), 404, "");
    assert_eq!(fetch.phase(), Phase::Collecting);
    fetch.record_page(200, Ok(vec![film(2)]));
    fetch.record_page(200, Ok(vec![film(3)]));
    fetch.record_page(200, Ok(vec![film(4)]));
    match fetch.into_outcome() {
        FetchOutcome::Films(films) => assert_eq!(films.iter().map(|film| film.id).collect::<Vec<_>>(), vec![2, 3]),
        other => panic!("unexpected outcome {:?}", other),
    }
}

#[test]
fn a_faulty_page_fails_the_whole_fetch() {
    let mut fetch = UserFetch::new("someone");
    fetch.on_first_page(&client(), 200, &first_page(Some(3)));
    assert_eq!(fetch.next_page(), Some(1));
    assert_eq!(fetch.next_page(), Some(2));
    fetch.on_page(&client(), 200, &body_items(&[(1, Some("★"))]));
    fetch.on_page(&client(), 200, &body_items(&[(2, Some("stars"))]));
    assert_eq!(fetch.phase(), Phase::Failed);
    assert_eq!(fetch.next_page(), None);
    fetch.on_page(&client(), 200, &body_items(&[(3, None)]));
    assert!(matches!(fetch.into_outcome(), FetchOutcome::Failed(LetterboxdError::UnknownGlyph(glyph)) if glyph == "stars"));
}

#[test]
fn a_first_page_without_page_links_fails_the_fetch() {
    let mut fetch = UserFetch::new("someone");
    fetch.on_first_page(&client(), 200, "<html><body><div class=\"pagination\"></div></body></html>");
    assert_eq!(fetch.phase(), Phase::Failed);
    assert!(matches!(fetch.into_outcome(), FetchOutcome::Failed(LetterboxdError::PaginationElementNotFound)));
}

#[test]
fn a_profile_of_no_pages_is_finished_at_once() {
    let mut fetch = UserFetch::new("someone");
    fetch.record_first_page(200, Ok(0));
    assert_eq!(fetch.phase(), Phase::Finished);
    assert_eq!(fetch.next_page(), None);
    assert!(matches!(fetch.into_outcome(), FetchOutcome::Films(films) if films.is_empty()));
}

#[test]
fn a_film_listed_twice_is_collected_once() {
    let mut fetch = UserFetch::new("someone");
    fetch.on_first_page(&client(), 200, &first_page(Some(3)));
    while fetch.next_page().is_some() {}
    fetch.on_page(&client(), 200, &body_items(&[(1, Some("★")), (2, Some("★★")), (1, Some("★★★"))]));
    fetch.on_page(&client(), 200, &body_items(&[(3, None), (2, None)]));
    fetch.on_page(&client(), 200, &body_items(&[(3, Some("½")), (4, Some("½")), (4, None)]));
    match fetch.into_outcome() {
        FetchOutcome::Films(films) => {
            assert_eq!(films.iter().map(|film| film.id).collect::<Vec<_>>(), vec![1, 2, 3, 4]);
            assert_eq!(films[0].rating, Some(Rating(2)));
            assert_eq!(films[1].rating, Some(Rating(4)));
            assert_eq!(films[2].rating, None);
            assert_eq!(films[3].rating, Some(Rating(1)));
        }
        other => panic!("unexpected outcome {:?}", other),
    }
}

#[test]
fn a_status_that_is_no_success_is_the_transports_failure() {
    for status in [500u16, 503, 301, 403, 100, 0] {
        let mut fetch = UserFetch::new("someone");
        fetch.on_first_page(&client(), status, &first_page(Some(3)));
        assert_eq!(fetch.phase(), Phase::Failed);
        assert_eq!(fetch.next_page(), None);
        assert!(matches!(fetch.into_outcome(), FetchOutcome::Aborted));
    }
    for status in [404u16, 500, 302] {
        let mut fetch = UserFetch::new("someone");
        fetch.on_first_page(&client(), 200, &first_page(Some(3)));
        assert_eq!(fetch.next_page(), Some(1));
        assert_eq!(fetch.next_page(), Some(2));
        fetch.on_page(&client(), 200, &body_items(&[(1, None)]));
        fetch.on_page(&client(), status, &body_items(&[(2, None)]));
        assert_eq!(fetch.phase(), Phase::Failed);
        assert_eq!(fetch.next_page(), None);
        assert!(matches!(fetch.into_outcome(), FetchOutcome::Aborted));
    }
    let mut fetch = UserFetch::new("someone");
    fetch.on_first_page(&client(), 204, &first_page(None));
    assert_eq!(fetch.phase(), Phase::Collecting);
}

#[test]
fn a_body_too_long_for_the_engine_fails_the_fetch() {
    let body = "a".repeat(letterboxd_diff::markup::MAX_DOCUMENT_CHARS + 1);

    let mut fetch = UserFetch::new("someone");
    fetch.on_first_page(&client(), 200, &body);
    assert_eq!(fetch.phase(), Phase::Failed);
    assert_eq!(fetch.next_page(), None);
    assert!(matches!(fetch.into_outcome(), FetchOutcome::Failed(LetterboxdError::PageTooLong)));

    let mut fetch = UserFetch::new("someone");
    fetch.on_first_page(&client(), 200, &first_page(Some(3)));
    assert_eq!(fetch.next_page(), Some(1));
    fetch.on_page(&client(), 200, &body);
    assert_eq!(fetch.phase(), Phase::Failed);
    assert_eq!(fetch.next_page(), None);
    assert!(matches!(fetch.into_outcome(), FetchOutcome::Failed(LetterboxdError::PageTooLong)));

    let mut fetch = UserFetch::new("nobody");
    fetch.on_first_page(&client(), 404, &body);
    assert!(matches!(fetch.into_outcome(), FetchOutcome::Failed(LetterboxdError::UserNotFound(_))));

    let mut fetch = UserFetch::new("someone");
    fetch.on_page(&client(), 200, &body);
    assert_eq!(fetch.phase(), Phase::Discovering);
}

#[test]
fn a_transport_failure_aborts_the_fetch() {
    let mut fetch = UserFetch::new("someone");
    fetch.on_transport_failure();
    assert_eq!(fetch.phase(), Phase::Failed);
    assert!(matches!(fetch.into_outcome(), FetchOutcome::Aborted));

    let mut fetch = UserFetch::new("someone");
    fetch.record_first_page(200, Ok(2));
    assert_eq!(fetch.next_page(), Some(1));
    fetch.record_page(200, Ok(vec![film(1)]));
    fetch.on_transport_failure();
    assert_eq!(fetch.next_page(), None);
    assert!(matches!(fetch.into_outcome(), FetchOutcome::Aborted));

    let mut fetch = UserFetch::new("someone");
    fetch.record_first_page(200, Ok(1));
    assert_eq!(fetch.next_page(), Some(1));
    fetch.record_page(200, Ok(vec![film(1)]));
    fetch.on_transport_failure();
    assert!(matches!(fetch.into_outcome(), FetchOutcome::Films(films) if films.len() == 1));
}
