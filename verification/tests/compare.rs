use letterboxd_diff::{get_and, get_diff, Film, Rating};

fn film(id: u64, rating: Option<u8>) -> Film {
    Film {
        id,
        name: format!("film {}", id),
        url: format!("https://letterboxd.com/film/{}", id),
        poster: String::new(),
        rating: rating.map(Rating),
    }
}

fn named(id: u64, name: &str, rating: Option<u8>) -> Film {
    Film { name: name.to_string(), ..film(id, rating) }
}

fn ids(list: &[Film]) -> Vec<u64> {
    list.iter().map(|film| film.id).collect()
}

fn triples(list: &[(Film, Option<Rating>)]) -> Vec<(u64, Option<u8>, Option<u8>)> {
    list.iter().map(|(film, theirs)| (film.id, film.rating.map(|r| r.0), theirs.map(|r| r.0))).collect()
}

#[test]
fn difference_orders_by_rating_with_unrated_last() {
    let list1 = vec![film(1, Some(6)), film(2, None), film(3, Some(8))];
    let diff = get_diff(list1, vec![]);
    assert_eq!(ids(&diff), vec![3, 1, 2]);
    assert_eq!(diff[0].rating, Some(Rating(8)));
    assert_eq!(diff[1].rating, Some(Rating(6)));
    assert_eq!(diff[2].rating, None);
}

#[test]
fn difference_leaves_out_what_the_other_has_seen() {
    let list1 = vec![film(1, Some(2)), film(2, Some(9)), film(3, Some(5)), film(4, None)];
    let list2 = vec![film(2, Some(1)), film(4, Some(10)), film(9, Some(3))];
    let diff = get_diff(list1, list2);
    assert_eq!(ids(&diff), vec![3, 1]);
}

#[test]
fn difference_members_are_in_the_first_list_only() {
    let list1: Vec<Film> = (1..40).map(|id| film(id, Some((id % 11) as u8))).collect();
    let list2: Vec<Film> = (1..40).filter(|id| id % 3 == 0).map(|id| film(id, None)).collect();
    let diff = get_diff(list1, list2);
    assert_eq!(diff.len(), 26);
    for entry in &diff {
        assert!((1..40).contains(&entry.id));
        assert!(entry.id % 3 != 0);
    }
}

#[test]
fn difference_keeps_ties_in_list_order() {
    let list1 = vec![
        film(5, Some(4)),
        film(1, None),
        film(4, Some(7)),
        film(3, Some(4)),
        film(2, None),
        film(6, Some(7)),
        film(7, Some(4)),
    ];
    let diff = get_diff(list1, vec![film(100, Some(1))]);
    assert_eq!(ids(&diff), vec![4, 6, 5, 3, 7, 1, 2]);
}

#[test]
fn difference_keeps_the_fields_of_the_first_list() {
    let list1 = vec![named(1, "mine", Some(3)), named(2, "also mine", Some(4))];
    let list2 = vec![named(2, "theirs", Some(10))];
    let diff = get_diff(list1, list2);
    assert_eq!(diff.len(), 1);
    assert_eq!(diff[0].id, 1);
    assert_eq!(diff[0].name, "mine");
    assert_eq!(diff[0].rating, Some(Rating(3)));
}

#[test]
fn difference_of_empty_lists_is_empty() {
    assert!(get_diff(vec![], vec![]).is_empty());
    assert!(get_diff(vec![], vec![film(1, Some(1))]).is_empty());
    assert!(get_diff(vec![film(1, Some(1))], vec![film(1, None)]).is_empty());
}

#[test]
fn difference_puts_a_zero_rating_above_no_rating() {
    let list1 = vec![film(1, None), film(2, Some(0)), film(3, Some(1))];
    assert_eq!(ids(&get_diff(list1, vec![])), vec![3, 2, 1]);
}

#[test]
fn intersection_breaks_ties_by_the_second_rating() {
    let list1 = vec![film(1, Some(8)), film(2, Some(8))];
    let list2 = vec![film(1, Some(4)), film(2, Some(10))];
    let both = get_and(list1, list2);
    assert_eq!(triples(&both), vec![(2, Some(8), Some(10)), (1, Some(8), Some(4))]);
}

#[test]
fn intersection_orders_by_the_first_rating_first() {
    let list1 = vec![film(1, Some(2)), film(2, None), film(3, Some(9)), film(4, Some(2)), film(5, None)];
    let list2 = vec![film(5, Some(3)), film(4, None), film(3, Some(1)), film(2, None), film(1, Some(10)), film(8, Some(8))];
    let both = get_and(list1, list2);
    assert_eq!(
        triples(&both),
        vec![
            (3, Some(9), Some(1)),
            (1, Some(2), Some(10)),
            (4, Some(2), None),
            (5, None, Some(3)),
            (2, None, None),
        ]
    );
}

#[test]
fn intersection_keeps_full_ties_in_list_order() {
    let list1 = vec![film(3, Some(6)), film(1, Some(6)), film(2, Some(6))];
    let list2 = vec![film(1, Some(5)), film(2, Some(5)), film(3, Some(5))];
    assert_eq!(
        triples(&get_and(list1, list2)),
        vec![(3, Some(6), Some(5)), (1, Some(6), Some(5)), (2, Some(6), Some(5))]
    );
}

#[test]
fn intersection_takes_the_film_from_the_first_list() {
    let list1 = vec![named(1, "mine", Some(3))];
    let list2 = vec![named(1, "theirs", Some(7))];
    let both = get_and(list1, list2);
    assert_eq!(both.len(), 1);
    assert_eq!(both[0].0.name, "mine");
    assert_eq!(both[0].0.rating, Some(Rating(3)));
    assert_eq!(both[0].1, Some(Rating(7)));
}

#[test]
fn intersection_takes_the_first_of_a_repeated_id() {
    let list1 = vec![film(1, Some(3))];
    let list2 = vec![film(1, Some(7)), film(1, Some(9)), film(1, None)];
    assert_eq!(triples(&get_and(list1, list2)), vec![(1, Some(3), Some(7))]);
}

#[test]
fn intersection_of_empty_or_disjoint_lists_is_empty() {
    assert!(get_and(vec![], vec![]).is_empty());
    assert!(get_and(vec![film(1, Some(1))], vec![]).is_empty());
    assert!(get_and(vec![], vec![film(1, Some(1))]).is_empty());
    assert!(get_and(vec![film(1, Some(1))], vec![film(2, Some(1))]).is_empty());
}

#[test]
fn difference_and_intersection_split_the_first_list() {
    let make1 = || -> Vec<Film> { (0..60).map(|id| film(id, if id % 4 == 0 { None } else { Some((id % 10 + 1) as u8) })).collect() };
    let make2 = || -> Vec<Film> { (30..90).rev().map(|id| film(id, Some((id % 7) as u8))).collect() };
    let diff = get_diff(make1(), make2());
    let both = get_and(make1(), make2());
    assert_eq!(diff.len() + both.len(), 60);
    assert!(diff.iter().all(|film| film.id < 30));
    assert!(both.iter().all(|(film, _)| film.id >= 30));
    assert!(diff.windows(2).all(|pair| pair[0].rating >= pair[1].rating));
    assert!(both.windows(2).all(|pair| (pair[0].0.rating, pair[0].1) >= (pair[1].0.rating, pair[1].1)));
    for (film, theirs) in &both {
        assert_eq!(*theirs, Some(Rating((film.id % 7) as u8)));
    }
}

#[test]
fn long_lists_are_ordered_as_a_stable_sort_orders_them() {
    let mut state: u64 = 0x2545_f491_4f6c_dd1d;
    let mut next = move || {
        state ^= state << 13;
        state ^= state >> 7;
        state ^= state << 17;
        state
    };
    let mut ratings = Vec::new();
    for _ in 0..3000 {
        let draw = next() % 12;
        ratings.push(if draw == 11 { None } else { Some(draw as u8) });
    }
    let list1 = || -> Vec<Film> { ratings.iter().enumerate().map(|(id, rating)| film(id as u64, *rating)).collect() };
    let list2 = || -> Vec<Film> { (0..3000u64).filter(|id| id % 5 < 2).map(|id| film(id, Some((id % 9) as u8))).collect() };

    let mut expected: Vec<Film> = list1().into_iter().filter(|film| film.id % 5 >= 2).collect();
    expected.sort_by(|a, b| b.rating.cmp(&a.rating));
    let diff = get_diff(list1(), list2());
    assert_eq!(ids(&diff), ids(&expected));

    let mut expected: Vec<(Film, Option<Rating>)> = list1()
        .into_iter()
        .filter(|film| film.id % 5 < 2)
        .map(|film| {
            let theirs = Some(Rating((film.id % 9) as u8));
            (film, theirs)
        })
        .collect();
    expected.sort_by(|a, b| (b.0.rating, b.1).cmp(&(a.0.rating, a.1)));
    let both = get_and(list1(), list2());
    assert_eq!(triples(&both), triples(&expected));
}
