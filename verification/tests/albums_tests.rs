use spotify_access::albums::{comes_before, sort_newest_first, Dated};

fn dated(year: &str, item: u32) -> Dated<u32> {
    Dated { year: year.to_string(), item }
}

fn order(items: Vec<Dated<u32>>) -> Vec<(String, u32)> {
    sort_newest_first(items)
        .into_iter()
        .map(|dated| (dated.year, dated.item))
        .collect()
}

#[test]
fn texts_compare_like_strings_do() {
    let texts = [
        "", "0", "1", "19", "1999", "2", "2000", "2001", "20010", "a", "A", "ab", "b", "\u{e9}",
        "\u{1F600}", "z\u{e9}", "z",
    ];
    for a in texts {
        for b in texts {
            assert_eq!(comes_before(a, b), a < b, "for {:?} and {:?}", a, b);
        }
    }
}

#[test]
fn albums_are_ordered_newest_first() {
    let sorted = order(vec![
        dated("1999", 0),
        dated("2021", 1),
        dated("2005", 2),
        dated("2023", 3),
        dated("1987", 4),
    ]);
    assert_eq!(
        sorted,
        vec![
            ("2023".to_string(), 3),
            ("2021".to_string(), 1),
            ("2005".to_string(), 2),
            ("1999".to_string(), 0),
            ("1987".to_string(), 4),
        ]
    );
}

#[test]
fn albums_of_one_year_keep_their_order() {
    let sorted = order(vec![
        dated("2010", 0),
        dated("2012", 1),
        dated("2010", 2),
        dated("2012", 3),
        dated("2010", 4),
        dated("", 5),
        dated("2012", 6),
    ]);
    let items: Vec<u32> = sorted.iter().map(|(_, item)| *item).collect();
    assert_eq!(items, vec![1, 3, 6, 0, 2, 4, 5]);
}

#[test]
fn ordering_agrees_with_a_stable_sort() {
    let years = ["2001", "1999", "2001", "", "2020", "1999", "2020", "2001", "1980", "2020"];
    let items: Vec<Dated<u32>> = years
        .iter()
        .enumerate()
        .map(|(i, year)| dated(year, i as u32))
        .collect();
    let mut expected: Vec<(String, u32)> = years
        .iter()
        .enumerate()
        .map(|(i, year)| (year.to_string(), i as u32))
        .collect();
    expected.sort_by(|a, b| b.0.cmp(&a.0));
    assert_eq!(order(items), expected);
    assert!(order(Vec::new()).is_empty());
}
