use news_feed::text::{chars_contained, chars_of, find_in, starts_at, text_contains};

fn cs(s: &str) -> Vec<char> {
    s.chars().collect()
}

#[test]
fn the_characters_of_a_text() {
    assert_eq!(chars_of(""), Vec::<char>::new());
    assert_eq!(chars_of("abc"), vec!['a', 'b', 'c']);
    assert_eq!(chars_of("né à"), vec!['n', 'é', ' ', 'à']);
    assert_eq!(chars_of("日本"), vec!['日', '本']);
}

#[test]
fn a_part_stands_where_it_stands() {
    let hay = cs("abcabd");
    assert!(starts_at(&hay, &cs("abc"), 0));
    assert!(!starts_at(&hay, &cs("abd"), 0));
    assert!(starts_at(&hay, &cs("abd"), 3));
    assert!(starts_at(&hay, &cs(""), 6));
    assert!(starts_at(&hay, &cs("abcabd"), 0));
}

#[test]
fn the_first_place_is_found() {
    assert_eq!(find_in(&cs("abcabd"), &cs("ab")), Some(0));
    assert_eq!(find_in(&cs("abcabd"), &cs("abd")), Some(3));
    assert_eq!(find_in(&cs("abcabd"), &cs("d")), Some(5));
    assert_eq!(find_in(&cs("abcabd"), &cs("")), Some(0));
    assert_eq!(find_in(&cs(""), &cs("")), Some(0));
    assert_eq!(find_in(&cs("abcabd"), &cs("abe")), None);
    assert_eq!(find_in(&cs("ab"), &cs("abc")), None);
    assert_eq!(find_in(&cs(""), &cs("a")), None);
    assert_eq!(find_in(&cs("aaab"), &cs("aab")), Some(1));
}

#[test]
fn containment_agrees_with_the_standard_library() {
    let texts = ["", "a", "ab", "Election results", "naïve café", "日本語のニュース", "aaab"];
    let parts = ["", "a", "b", "ab", "aab", "Election", "election", "fé", "é", "本語", "ニュ", "x"];
    for hay in texts {
        for needle in parts {
            assert_eq!(text_contains(hay, needle), hay.contains(needle), "{:?} in {:?}", needle, hay);
            assert_eq!(chars_contained(hay, &cs(needle)), hay.contains(needle));
        }
    }
}
