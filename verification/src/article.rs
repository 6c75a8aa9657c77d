use crate::rnd::{is_sentence, is_word, write_sentence, write_word};
use vstd::prelude::*;
use vstd::string::*;

verus! {

/// What an article is to a contract: its texts, the optional ones as options.
pub struct ArticleView {
    pub title: Seq<char>,
    pub source: Seq<char>,
    pub author: Option<Seq<char>>,
    pub description: Option<Seq<char>>,
    pub url: Seq<char>,
}

impl ArticleView {
    /// The description as a reader sees it: the text, or a fixed phrase where
    /// the article came without one.
    pub open spec fn shown_description(self) -> Seq<char> {
        match self.description {
            Some(d) => d,
            None => "None Available"@,
        }
    }

    /// The author as a reader sees it: the name, or nothing.
    pub open spec fn shown_author(self) -> Seq<char> {
        match self.author {
            Some(a) => a,
            None => Seq::empty(),
        }
    }
}

/// The publisher of an article.
#[derive(Debug, Clone)]
pub struct Source {
    name: String,
}

impl Source {
    pub closed spec fn name_text(&self) -> Seq<char> {
        self.name@
    }

    pub fn get_name(&self) -> (r: &str)
        ensures
            r@ == self.name_text(),
    {
        self.name.as_str()
    }
}

/// One article of the feed. It is made once and never changed.
#[derive(Debug, Clone)]
pub struct News {
    title: String,
    source: Source,
    author: Option<String>,
    description: Option<String>,
    url: String,
}

impl View for News {
    type V = ArticleView;

    closed spec fn view(&self) -> ArticleView {
        ArticleView {
            title: self.title@,
            source: self.source.name@,
            author: match self.author {
                Some(a) => Some(a@),
                None => None,
            },
            description: match self.description {
                Some(d) => Some(d@),
                None => None,
            },
            url: self.url@,
        }
    }
}

/// The views of a list of articles, in the list's order.
pub open spec fn article_views(items: Seq<News>) -> Seq<ArticleView> {
    items.map_values(|n: News| n@)
}

impl News {
    /// An article with the given texts.
    pub fn new(
        title: String,
        source_name: String,
        author: Option<String>,
        description: Option<String>,
        url: String,
    ) -> (r: News)
        ensures
            r@.title == title@,
            r@.source == source_name@,
            r@.author == (match author {
                Some(a) => Some(a@),
                None => None,
            }),
            r@.description == (match description {
                Some(d) => Some(d@),
                None => None,
            }),
            r@.url == url@,
    {
        News { title, source: Source { name: source_name }, author, description, url }
    }

    pub fn get_title(&self) -> (r: &str)
        ensures
            r@ == self@.title,
    {
        self.title.as_str()
    }

    pub fn get_desc(&self) -> (r: &str)
        ensures
            r@ == self@.shown_description(),
    {
        match &self.description {
            Some(v) => v.as_str(),
            None => "None Available",
        }
    }

    pub fn get_url(&self) -> (r: &str)
        ensures
            r@ == self@.url,
    {
        self.url.as_str()
    }

    pub fn get_author(&self) -> (r: &str)
        ensures
            r@ == self@.shown_author(),
    {
        match &self.author {
            Some(v) => v.as_str(),
            None => {
                proof {
                    reveal_strlit("");
                    assert(""@ =~= Seq::<char>::empty());
                }
                ""
            },
        }
    }

    pub fn get_source(&self) -> (r: &Source)
        ensures
            r.name_text() == self@.source,
    {
        &self.source
    }

    /// A made-up article for a demonstration without the service: random
    /// letters in the shape of a headline, a description, an address, a
    /// publisher and an author of two names.
    pub fn mock() -> (r: News)
        ensures
            is_mock(r@),
    {
        let title = write_sentence(30);
        let description = write_sentence(60);
        let url = write_sentence(8);
        let name = write_word();
        let mut author = write_word();
        let ghost given = author@;
        let family = write_word();
        author.append(" ");
        author.append(family.as_str());
        proof {
            reveal_strlit(" ");
            assert(author@.subrange(0, 4) =~= given);
            assert(author@.subrange(5, 9) =~= family@);
        }
        News::new(title, name, Some(author), Some(description), url)
    }
}

/// Two names with a space between them.
pub open spec fn is_full_name(s: Seq<char>) -> bool {
    s.len() == 9 && is_word(s.subrange(0, 4)) && s[4] == ' ' && is_word(s.subrange(5, 9))
}

/// The shape of a made-up article: a headline of 30 words, a description of
/// 60, an address of 8, a publisher of one name and an author of two.
pub open spec fn is_mock(a: ArticleView) -> bool {
    &&& is_sentence(a.title, 30)
    &&& a.description is Some
    &&& is_sentence(a.description->Some_0, 60)
    &&& is_sentence(a.url, 8)
    &&& is_word(a.source)
    &&& a.author is Some
    &&& is_full_name(a.author->Some_0)
}

/// A successful answer of the service: its status and its articles.
#[derive(Debug, Clone)]
pub struct ApiResponse {
    status: String,
    articles: Vec<News>,
}

impl ApiResponse {
    pub closed spec fn status_text(&self) -> Seq<char> {
        self.status@
    }

    /// The articles, in the order in which the service sent them.
    pub closed spec fn articles(&self) -> Seq<News> {
        self.articles@
    }

    pub fn new(s: String, vec: Vec<News>) -> (r: ApiResponse)
        ensures
            r.status_text() == s@,
            r.articles() == vec@,
    {
        ApiResponse { status: s, articles: vec }
    }

    pub fn get_articles(&self) -> (r: &Vec<News>)
        ensures
            r@ == self.articles(),
    {
        &self.articles
    }

    pub fn get_status(&self) -> (r: &str)
        ensures
            r@ == self.status_text(),
    {
        self.status.as_str()
    }
}

} // verus!
