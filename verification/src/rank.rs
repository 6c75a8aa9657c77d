use crate::article::{article_views, ArticleView, News};
use crate::text::{chars_contained, chars_of, has_substring, lemma_empty_text_is_everywhere};
use vstd::prelude::*;

verus! {

/// What a match in the title adds to an article's score.
pub const TITLE_WEIGHT: i32 = 7;

/// What a match in the description adds to an article's score.
pub const DESCRIPTION_WEIGHT: i32 = 5;

/// What a match in the address adds to an article's score.
pub const URL_WEIGHT: i32 = 3;

/// The score of an article that matches in every field.
pub const MAX_SCORE: i32 = 15;

/// The relevance of an article to a filter text: the sum of the weights of
/// the fields in which the text stands.
pub open spec fn score(a: ArticleView, fil: Seq<char>) -> int {
    (if has_substring(a.title, fil) {
        TITLE_WEIGHT as int
    } else {
        0int
    }) + (if has_substring(a.shown_description(), fil) {
        DESCRIPTION_WEIGHT as int
    } else {
        0int
    }) + (if has_substring(a.url, fil) {
        URL_WEIGHT as int
    } else {
        0int
    })
}

/// Each article beside its score for `fil`, in the list's order.
pub open spec fn scored(items: Seq<ArticleView>, fil: Seq<char>) -> Seq<(ArticleView, int)> {
    items.map_values(|a: ArticleView| (a, score(a, fil)))
}

/// The articles among the first `n` candidates whose score is exactly `s`,
/// in the candidates' order.
pub open spec fn picked(c: Seq<(ArticleView, int)>, s: int, n: nat) -> Seq<ArticleView>
    recommends
        n <= c.len(),
    decreases n,
{
    if n == 0 {
        Seq::empty()
    } else if c[n - 1].1 == s {
        picked(c, s, (n - 1) as nat).push(c[n - 1].0)
    } else {
        picked(c, s, (n - 1) as nat)
    }
}

/// The highest score that a candidate can hold.
pub open spec fn top_score() -> int {
    0x7fff_ffff
}

/// The candidates that score `s` or more, the higher score first, and among
/// equal scores in the candidates' order.
pub open spec fn ranked_from(c: Seq<(ArticleView, int)>, s: int) -> Seq<ArticleView>
    decreases top_score() + 1 - s,
{
    if s > top_score() {
        Seq::empty()
    } else {
        ranked_from(c, s + 1) + picked(c, s, c.len())
    }
}

/// The ranking of a list of candidates: those with a positive score, the
/// higher score first, and among equal scores in the candidates' order.
pub open spec fn ranking(c: Seq<(ArticleView, int)>) -> Seq<ArticleView> {
    ranked_from(c, 1)
}

/// The views of a list of borrowed articles.
pub open spec fn borrowed_views(items: Seq<&News>) -> Seq<ArticleView> {
    items.map_values(|n: &News| n@)
}

/// The candidates that a list of borrowed articles with scores stands for.
pub open spec fn candidate_views(c: Seq<(&News, i32)>) -> Seq<(ArticleView, int)> {
    c.map_values(|p: (&News, i32)| (p.0@, p.1 as int))
}

/// The relevance of `item` to the filter text whose characters are `fil`.
fn score_with(item: &News, fil: &Vec<char>) -> (r: i32)
    ensures
        r as int == score(item@, fil@),
        0 <= r <= MAX_SCORE,
{
    let mut itg: i32 = 0;
    if chars_contained(item.get_title(), fil) {
        itg = itg + TITLE_WEIGHT;
    }
    if chars_contained(item.get_desc(), fil) {
        itg = itg + DESCRIPTION_WEIGHT;
    }
    if chars_contained(item.get_url(), fil) {
        itg = itg + URL_WEIGHT;
    }
    itg
}

/// The relevance of `item` to `fil`.
pub fn score_of(item: &News, fil: &str) -> (r: i32)
    ensures
        r as int == score(item@, fil@),
        0 <= r <= MAX_SCORE,
{
    let needle = chars_of(fil);
    score_with(item, &needle)
}

/// The highest score below `bound` among the candidates, or 0 where none of
/// them has a positive score below it.
fn next_score(vec: &Vec<(&News, i32)>, bound: i32) -> (s: i32)
    ensures
        0 <= s,
        s < bound || s == 0,
        forall|i: int| 0 <= i < vec@.len() ==> !(s < (#[trigger] vec@[i]).1 < bound),
        s > 0 ==> exists|i: int| 0 <= i < vec@.len() && (#[trigger] vec@[i]).1 == s,
{
    let mut s: i32 = 0;
    let mut index: usize = 0;
    while index < vec.len()
        invariant
            index <= vec.len(),
            0 <= s,
            s < bound || s == 0,
            forall|i: int| 0 <= i < index ==> !(s < (#[trigger] vec@[i]).1 < bound),
            s > 0 ==> exists|i: int| 0 <= i < vec@.len() && (#[trigger] vec@[i]).1 == s,
        decreases vec.len() - index,
    {
        let here: i32 = vec[index].1;
        if here > s && here < bound {
            s = here;
        }
        index = index + 1;
    }
    s
}

/// Ranks scored candidates: drops those that score nothing, or less, and puts
/// the rest in descending order of score, equal scores in the order given.
pub fn get<'a>(vec: Vec<(&'a News, i32)>) -> (ans: Vec<&'a News>)
    ensures
        borrowed_views(ans@) == ranking(candidate_views(vec@)),
{
    let ghost c = candidate_views(vec@);
    let mut ans: Vec<&'a News> = Vec::new();
    let top: i32 = next_score(&vec, i32::MAX);
    let mut s: i32 = if has_score(&vec, i32::MAX) {
        i32::MAX
    } else {
        top
    };
    proof {
        lemma_ranked_skip(c, s + 1, top_score() + 1);
        assert(borrowed_views(ans@) =~= ranked_from(c, s + 1));
    }
    while s > 0
        invariant
            0 <= s <= top_score(),
            c == candidate_views(vec@),
            borrowed_views(ans@) == ranked_from(c, s + 1),
        decreases s,
    {
        let mut index: usize = 0;
        assert(borrowed_views(ans@) =~= ranked_from(c, s + 1) + picked(c, s as int, 0));
        while index < vec.len()
            invariant
                0 < s <= top_score(),
                index <= vec.len(),
                c == candidate_views(vec@),
                borrowed_views(ans@) == ranked_from(c, s + 1) + picked(c, s as int, index as nat),
            decreases vec.len() - index,
        {
            if vec[index].1 == s {
                let ghost before = ans@;
                ans.push(vec[index].0);
                assert(borrowed_views(ans@) =~= borrowed_views(before).push(vec@[index as int].0@));
                assert(ranked_from(c, s + 1) + picked(c, s as int, (index + 1) as nat)
                    =~= (ranked_from(c, s + 1) + picked(c, s as int, index as nat)).push(
                    c[index as int].0,
                ));
            }
            index = index + 1;
        }
        assert(c.len() == vec@.len());
        let lower: i32 = next_score(&vec, s);
        proof {
            lemma_ranked_skip(c, lower + 1, s as int);
        }
        s = lower;
    }
    ans
}

/// Tells whether a candidate holds the score `s`.
fn has_score(vec: &Vec<(&News, i32)>, s: i32) -> (r: bool)
    ensures
        r == exists|i: int| 0 <= i < vec@.len() && (#[trigger] vec@[i]).1 == s,
{
    let mut index: usize = 0;
    while index < vec.len()
        invariant
            index <= vec.len(),
            forall|i: int| 0 <= i < index ==> (#[trigger] vec@[i]).1 != s,
        decreases vec.len() - index,
    {
        if vec[index].1 == s {
            return true;
        }
        index = index + 1;
    }
    false
}

/// Where no candidate scores from `lo` up to but not `hi`, the ranking from
/// `lo` is the ranking from `hi`.
proof fn lemma_ranked_skip(c: Seq<(ArticleView, int)>, lo: int, hi: int)
    requires
        lo <= hi <= top_score() + 1,
        forall|i: int| 0 <= i < c.len() ==> !(lo <= (#[trigger] c[i]).1 < hi),
    ensures
        ranked_from(c, lo) == ranked_from(c, hi),
    decreases hi - lo,
{
    if lo < hi {
        lemma_ranked_skip(c, lo + 1, hi);
        lemma_picked_none(c, lo, c.len());
        assert(ranked_from(c, lo) =~= ranked_from(c, lo + 1));
    }
}

/// Ranks `items` against the filter text `fil`: the articles in which the
/// text stands, the most relevant first.
pub fn filter<'a>(items: &'a Vec<News>, fil: &str) -> (r: Vec<&'a News>)
    ensures
        borrowed_views(r@) == ranking(scored(article_views(items@), fil@)),
{
    let needle = chars_of(fil);
    let mut con: Vec<(&'a News, i32)> = Vec::new();
    let mut k: usize = 0;
    while k < items.len()
        invariant
            needle@ == fil@,
            k <= items.len(),
            con@.len() == k,
            forall|i: int|
                0 <= i < k ==> (#[trigger] con@[i]).0@ == items@[i]@ && con@[i].1 as int == score(
                    items@[i]@,
                    fil@,
                ),
        decreases items.len() - k,
    {
        let item = &items[k];
        let itg: i32 = score_with(item, &needle);
        con.push((item, itg));
        k = k + 1;
    }
    assert(candidate_views(con@) =~= scored(article_views(items@), fil@));
    get(con)
}

/// Among candidates none of which scores `s`, nothing is picked for `s`.
proof fn lemma_picked_none(c: Seq<(ArticleView, int)>, s: int, n: nat)
    requires
        n <= c.len(),
        forall|i: int| 0 <= i < n ==> (#[trigger] c[i]).1 != s,
    ensures
        picked(c, s, n) == Seq::<ArticleView>::empty(),
    decreases n,
{
    if n > 0 {
        lemma_picked_none(c, s, (n - 1) as nat);
    }
}

/// Among candidates all of which score `s`, every one is picked for `s`.
proof fn lemma_picked_all(c: Seq<(ArticleView, int)>, s: int, n: nat)
    requires
        n <= c.len(),
        forall|i: int| 0 <= i < n ==> (#[trigger] c[i]).1 == s,
    ensures
        picked(c, s, n).len() == n,
        forall|i: int| 0 <= i < n ==> (#[trigger] picked(c, s, n)[i]) == c[i].0,
    decreases n,
{
    if n > 0 {
        lemma_picked_all(c, s, (n - 1) as nat);
    }
}

/// With an empty filter text every article has the highest score.
pub proof fn lemma_empty_filter_scores_highest(a: ArticleView)
    ensures
        score(a, Seq::empty()) == 15,
{
    lemma_empty_text_is_everywhere(a.title);
    lemma_empty_text_is_everywhere(a.shown_description());
    lemma_empty_text_is_everywhere(a.url);
}

/// An empty filter text filters nothing: the ranking of a list against it is
/// the list itself, every article in its place.
pub proof fn lemma_empty_filter_keeps_all(items: Seq<ArticleView>)
    ensures
        ranking(scored(items, Seq::empty())) == items,
{
    let c = scored(items, Seq::empty());
    assert forall|i: int| 0 <= i < c.len() implies (#[trigger] c[i]).1 == 15 by {
        lemma_empty_filter_scores_highest(items[i]);
    }
    lemma_picked_all(c, 15, c.len());
    assert(picked(c, 15, c.len()) =~= items);
    lemma_ranked_skip(c, 1, 15);
    lemma_ranked_skip(c, 16, top_score() + 1);
    assert(ranked_from(c, 15) =~= ranked_from(c, 16) + picked(c, 15, c.len()));
    assert(ranking(c) =~= items);
}

/// What is picked for a score comes from the candidates, carries that score,
/// and every candidate with that score is picked.
proof fn lemma_picked_members(items: Seq<ArticleView>, fil: Seq<char>, s: int, n: nat)
    requires
        n <= items.len(),
    ensures
        forall|k: int|
            0 <= k < picked(scored(items, fil), s, n).len() ==> {
                let a = #[trigger] picked(scored(items, fil), s, n)[k];
                items.take(n as int).contains(a) && score(a, fil) == s
            },
        forall|i: int|
            0 <= i < n && score(items[i], fil) == s ==> picked(scored(items, fil), s, n).contains(
                #[trigger] items[i],
            ),
    decreases n,
{
    let c = scored(items, fil);
    if n > 0 {
        lemma_picked_members(items, fil, s, (n - 1) as nat);
        let prev = picked(c, s, (n - 1) as nat);
        let now = picked(c, s, n);
        assert(items.take(n as int)[n - 1] == items[n - 1]);
        assert forall|k: int| 0 <= k < now.len() implies {
            let a = #[trigger] now[k];
            items.take(n as int).contains(a) && score(a, fil) == s
        } by {
            if k < prev.len() {
                let a = prev[k];
                let shorter = items.take((n - 1) as int);
                let w = choose|w: int| 0 <= w < shorter.len() && shorter[w] == a;
                assert(items.take(n as int)[w] == a);
            }
        }
        assert forall|i: int| 0 <= i < n && score(items[i], fil) == s implies now.contains(
            #[trigger] items[i],
        ) by {
            if i < n - 1 {
                let w = choose|w: int| 0 <= w < prev.len() && prev[w] == items[i];
                assert(now[w] == items[i]);
            } else {
                assert(now[now.len() - 1] == items[i]);
            }
        }
    }
}

/// The articles that score `s` or more stand in descending order of score,
/// and they are the articles of the list with such a score.
proof fn lemma_ranked_from_ordered(items: Seq<ArticleView>, fil: Seq<char>, s: int)
    requires
        1 <= s <= top_score() + 1,
    ensures
        forall|i: int, j: int|
            0 <= i <= j < ranked_from(scored(items, fil), s).len() ==> score(
                #[trigger] ranked_from(scored(items, fil), s)[i],
                fil,
            ) >= score(#[trigger] ranked_from(scored(items, fil), s)[j], fil) >= s,
        forall|a: ArticleView|
            ranked_from(scored(items, fil), s).contains(a) <==> items.contains(a) && score(a, fil)
                >= s,
    decreases top_score() + 1 - s,
{
    let c = scored(items, fil);
    let r = ranked_from(c, s);
    if s <= top_score() {
        lemma_ranked_from_ordered(items, fil, s + 1);
        lemma_picked_members(items, fil, s, items.len());
        let high = ranked_from(c, s + 1);
        let same = picked(c, s, c.len());
        assert(items.take(items.len() as int) =~= items);
        assert forall|a: ArticleView| r.contains(a) <==> items.contains(a) && score(a, fil)
            >= s by {
            if r.contains(a) {
                let w = choose|w: int| 0 <= w < r.len() && r[w] == a;
                if w < high.len() {
                    assert(high.contains(a));
                } else {
                    assert(same[w - high.len()] == a);
                }
            }
            if items.contains(a) && score(a, fil) >= s {
                if score(a, fil) > s {
                    let w = choose|w: int| 0 <= w < high.len() && high[w] == a;
                    assert(r[w] == a);
                } else {
                    let i = choose|i: int| 0 <= i < items.len() && items[i] == a;
                    assert(same.contains(items[i]));
                    let w = choose|w: int| 0 <= w < same.len() && same[w] == a;
                    assert(r[high.len() + w] == a);
                }
            }
        }
        assert forall|i: int, j: int| 0 <= i <= j < r.len() implies score(#[trigger] r[i], fil)
            >= score(#[trigger] r[j], fil) >= s by {
            if i >= high.len() {
                assert(r[i] == same[i - high.len()]);
            } else {
                assert(r[i] == high[i]);
                assert(score(high[i], fil) >= score(high[i], fil) >= s + 1);
            }
            if j >= high.len() {
                assert(r[j] == same[j - high.len()]);
            } else {
                assert(r[j] == high[j]);
            }
        }
    } else {
        assert forall|a: ArticleView| items.contains(a) implies score(a, fil) <= 15 by {}
    }
}

/// A ranking is in descending order of score, and nothing in it scores zero.
pub proof fn lemma_ranking_descends(items: Seq<ArticleView>, fil: Seq<char>)
    ensures
        forall|i: int, j: int|
            0 <= i <= j < ranking(scored(items, fil)).len() ==> score(
                #[trigger] ranking(scored(items, fil))[i],
                fil,
            ) >= score(#[trigger] ranking(scored(items, fil))[j], fil) >= 1,
{
    lemma_ranked_from_ordered(items, fil, 1);
}

/// A ranking holds the articles of the list in which the filter text stands,
/// and no others.
pub proof fn lemma_ranking_members(items: Seq<ArticleView>, fil: Seq<char>)
    ensures
        forall|a: ArticleView|
            ranking(scored(items, fil)).contains(a) <==> items.contains(a) && score(a, fil) > 0,
{
    lemma_ranked_from_ordered(items, fil, 1);
}

/// The articles of one score stand in a ranking as the list has them: they
/// are the list, filtered by that score, and so keep their order.
pub proof fn lemma_equal_scores_keep_order(items: Seq<ArticleView>, fil: Seq<char>, s: int)
    ensures
        picked(scored(items, fil), s, items.len()) == items.filter(
            |a: ArticleView| score(a, fil) == s,
        ),
{
    lemma_picked_is_filter(items, fil, s, items.len());
    assert(items.take(items.len() as int) =~= items);
}

proof fn lemma_picked_is_filter(items: Seq<ArticleView>, fil: Seq<char>, s: int, n: nat)
    requires
        n <= items.len(),
    ensures
        picked(scored(items, fil), s, n) == items.take(n as int).filter(
            |a: ArticleView| score(a, fil) == s,
        ),
    decreases n,
{
    reveal(Seq::filter);
    let pred = |a: ArticleView| score(a, fil) == s;
    if n > 0 {
        lemma_picked_is_filter(items, fil, s, (n - 1) as nat);
        assert(items.take(n as int).drop_last() =~= items.take((n - 1) as int));
        assert(items.take(n as int).last() == items[n - 1]);
    } else {
        assert(items.take(0).filter(pred) =~= Seq::<ArticleView>::empty());
    }
}

/// Among the articles that score `s` or more, those that score exactly `s`
/// and those that score more are counted once each.
proof fn lemma_count_by_score(x: Seq<ArticleView>, fil: Seq<char>, s: int)
    ensures
        x.filter(|a: ArticleView| score(a, fil) >= s).len() == x.filter(
            |a: ArticleView| score(a, fil) >= s + 1,
        ).len() + x.filter(|a: ArticleView| score(a, fil) == s).len(),
        s > 15 ==> x.filter(|a: ArticleView| score(a, fil) >= s).len() == 0,
    decreases x.len(),
{
    reveal(Seq::filter);
    if x.len() > 0 {
        lemma_count_by_score(x.drop_last(), fil, s);
    }
}

/// The ranking from `s` has as many articles as the list has with a score of
/// `s` or more.
proof fn lemma_ranked_from_length(items: Seq<ArticleView>, fil: Seq<char>, s: int)
    requires
        1 <= s <= top_score() + 1,
    ensures
        ranked_from(scored(items, fil), s).len() == items.filter(
            |a: ArticleView| score(a, fil) >= s,
        ).len(),
    decreases top_score() + 1 - s,
{
    lemma_count_by_score(items, fil, s);
    if s <= top_score() {
        lemma_ranked_from_length(items, fil, s + 1);
        lemma_equal_scores_keep_order(items, fil, s);
    }
}

/// A ranking has as many articles as the list has with the filter text in
/// them: none is left out and none stands twice.
pub proof fn lemma_ranking_length(items: Seq<ArticleView>, fil: Seq<char>)
    ensures
        ranking(scored(items, fil)).len() == items.filter(
            |a: ArticleView| score(a, fil) >= 1,
        ).len(),
        ranking(scored(items, fil)).len() <= items.len(),
{
    lemma_ranked_from_length(items, fil, 1);
    items.lemma_filter_len(|a: ArticleView| score(a, fil) >= 1);
}

} // verus!
