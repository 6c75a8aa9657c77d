use crate::article::News;
use crate::cache::Api;
use crate::rank::{borrowed_views, filter, ranking, scored};
use crate::article::article_views;
use crate::error::ApiError;
use vstd::prelude::*;

verus! {

/// What the screen holds between two frames: the reader's state and the
/// filter text.
pub struct UI {
    news_api: Api,
    filter: String,
}

impl UI {
    pub closed spec fn state(&self) -> Api {
        self.news_api
    }

    pub closed spec fn filter_text(&self) -> Seq<char> {
        self.filter@
    }

    /// A screen over `api`, with no filter text.
    pub fn new(api: Api) -> (r: UI)
        ensures
            r.state() == api,
            r.filter_text() == Seq::<char>::empty(),
    {
        UI { news_api: api, filter: String::new() }
    }

    /// The filter text, for the reader to edit.
    pub fn get_s(&mut self) -> (r: &mut String)
        ensures
            r@ == old(self).filter_text(),
            final(self).filter_text() == final(r)@,
            final(self).state() == old(self).state(),
    {
        &mut self.filter
    }

    /// The reader's state, to read and to change.
    pub fn api(&mut self) -> (r: &mut Api)
        ensures
            *r == old(self).state(),
            final(self).state() == *final(r),
            final(self).filter_text() == old(self).filter_text(),
    {
        &mut self.news_api
    }

    /// What the screen shows: the cached articles ranked against the filter
    /// text, or `NoDataAvailable` where nothing is cached.
    pub fn shown(&self) -> (r: Result<Vec<&News>, ApiError>)
        ensures
            match self.state().response() {
                Some(res) => r matches Ok(v) && borrowed_views(v@) == ranking(
                    scored(article_views(res.articles()), self.filter_text()),
                ),
                None => r == Err::<Vec<&News>, ApiError>(ApiError::NoDataAvailable),
            },
    {
        match self.news_api.collect() {
            Ok(items) => Ok(filter(items, self.filter.as_str())),
            Err(e) => Err(e),
        }
    }
}

} // verus!
