use news_feed::article::News;
use news_feed::rank::{filter, get, score_of, MAX_SCORE};

fn article(title: &str, desc: Option<&str>, url: &str) -> News {
    News::new(
        title.to_string(),
        "Desk".to_string(),
        None,
        desc.map(|d| d.to_string()),
        url.to_string(),
    )
}

fn election_day() -> Vec<News> {
    vec![
        article("Election results", Some("Votes counted"), "/e1"),
        article("Weather", Some("Election-day forecast"), "/w1"),
        article("Sports", Some("Scores"), "/s1"),
    ]
}

#[test]
fn filter_ranks_title_match_above_description_match() {
    let items = election_day();
    let out = filter(&items, "Election");
    assert_eq!(out.len(), 2);
    assert_eq!(out[0].get_title(), "Election results");
    assert_eq!(out[1].get_title(), "Weather");
    assert_eq!(score_of(&items[0], "Election"), 7);
    assert_eq!(score_of(&items[1], "Election"), 5);
    assert_eq!(score_of(&items[2], "Election"), 0);
}

#[test]
fn empty_filter_keeps_every_article_in_order() {
    let items = election_day();
    let out = filter(&items, "");
    assert_eq!(out.len(), items.len());
    for i in 0..items.len() {
        assert_eq!(out[i].get_title(), items[i].get_title());
        assert_eq!(out[i].get_url(), items[i].get_url());
        assert_eq!(score_of(&items[i], ""), MAX_SCORE);
    }
}

#[test]
fn empty_filter_on_empty_list_is_empty() {
    let items: Vec<News> = Vec::new();
    assert!(filter(&items, "").is_empty());
    assert!(filter(&items, "x").is_empty());
}

#[test]
fn score_adds_the_weights_of_the_matching_fields() {
    let all = article("rust news", Some("about rust"), "/rust");
    assert_eq!(score_of(&all, "rust"), 15);
    let title_url = article("rust news", Some("nothing"), "/rust");
    assert_eq!(score_of(&title_url, "rust"), 10);
    let title_desc = article("rust news", Some("about rust"), "/r");
    assert_eq!(score_of(&title_desc, "rust"), 12);
    let desc_url = article("news", Some("about rust"), "/rust");
    assert_eq!(score_of(&desc_url, "rust"), 8);
    let url_only = article("news", Some("nothing"), "/rust");
    assert_eq!(score_of(&url_only, "rust"), 3);
    let none = article("news", Some("nothing"), "/r");
    assert_eq!(score_of(&none, "rust"), 0);
}

#[test]
fn matching_is_case_sensitive() {
    let a = article("Election results", Some("Votes counted"), "/e1");
    assert_eq!(score_of(&a, "election"), 0);
    assert_eq!(score_of(&a, "Election"), 7);
    let items = vec![a];
    assert!(filter(&items, "election").is_empty());
}

#[test]
fn a_filter_longer_than_the_field_does_not_match() {
    let a = article("abc", Some("abc"), "abc");
    assert_eq!(score_of(&a, "abcd"), 0);
    assert_eq!(score_of(&a, "abc"), 15);
    assert_eq!(score_of(&a, "bc"), 15);
}

#[test]
fn a_missing_description_is_matched_by_its_fallback_text() {
    let a = article("Title", None, "/u");
    assert_eq!(a.get_desc(), "None Available");
    assert_eq!(score_of(&a, "None Available"), 5);
    assert_eq!(score_of(&a, "Available"), 5);
}

#[test]
fn equal_scores_keep_their_order() {
    let items = vec![
        article("first cat", Some("x"), "/1"),
        article("dog", Some("a cat"), "/2"),
        article("second cat", Some("y"), "/3"),
        article("bird", Some("z"), "/4"),
        article("third cat", Some("w"), "/5"),
        article("fish", Some("the cat"), "/6"),
    ];
    let out = filter(&items, "cat");
    let urls: Vec<&str> = out.iter().map(|n| n.get_url()).collect();
    assert_eq!(urls, vec!["/1", "/3", "/5", "/2", "/6"]);
}

#[test]
fn higher_scores_come_first() {
    let items = vec![
        article("a", Some("b"), "/key"),
        article("a", Some("key"), "/x"),
        article("key", Some("b"), "/x"),
        article("key", Some("key"), "/key"),
        article("a", Some("key"), "/key"),
    ];
    let out = filter(&items, "key");
    let scores: Vec<i32> = out.iter().map(|n| score_of(n, "key")).collect();
    assert_eq!(scores, vec![15, 8, 7, 5, 3]);
}

#[test]
fn get_drops_zero_scores_and_sorts_the_rest() {
    let a = article("a", None, "/a");
    let b = article("b", None, "/b");
    let c = article("c", None, "/c");
    let d = article("d", None, "/d");
    let out = get(vec![(&a, 3), (&b, 0), (&c, 15), (&d, 3)]);
    let urls: Vec<&str> = out.iter().map(|n| n.get_url()).collect();
    assert_eq!(urls, vec!["/c", "/a", "/d"]);
}

#[test]
fn get_of_nothing_is_nothing() {
    assert!(get(Vec::new()).is_empty());
}

#[test]
fn get_ranks_any_scores() {
    let a = article("a", None, "/a");
    let b = article("b", None, "/b");
    let c = article("c", None, "/c");
    let d = article("d", None, "/d");
    let e = article("e", None, "/e");
    let out = get(vec![(&a, 1), (&b, i32::MAX), (&c, 1000), (&d, -4), (&e, 1000)]);
    let urls: Vec<&str> = out.iter().map(|n| n.get_url()).collect();
    assert_eq!(urls, vec!["/b", "/c", "/e", "/a"]);
    let low = get(vec![(&a, -1), (&b, 0), (&c, i32::MIN)]);
    assert!(low.is_empty());
    let one = get(vec![(&a, 0), (&b, 2)]);
    assert_eq!(one.len(), 1);
    assert_eq!(one[0].get_url(), "/b");
}
