use vstd::prelude::*;

verus! {

/// Which feed of the service a request reads.
#[derive(Clone, Copy, Debug, PartialEq, Eq, Structural)]
pub enum Fils {
    HEADLINES,
    EVERTHING,
}

/// The market whose news a request reads.
#[derive(Clone, Copy, Debug, PartialEq, Eq, Structural)]
pub enum Locs {
    US,
    JAPAN,
    CANADA,
    GREATBRITAIN,
    CHINA,
    RUSSIA,
}

impl Fils {
    /// The path segment that stands for the feed in a request address.
    pub open spec fn text(self) -> Seq<char> {
        match self {
            Fils::HEADLINES => "top-headlines"@,
            Fils::EVERTHING => "everything"@,
        }
    }

    /// Every feed, in the order in which a menu offers them.
    pub open spec fn all() -> Seq<Fils> {
        seq![Fils::HEADLINES, Fils::EVERTHING]
    }

    pub fn get_endpoints() -> (r: [Fils; 2])
        ensures
            r@ == Fils::all(),
    {
        [Fils::HEADLINES, Fils::EVERTHING]
    }

    /// The feed's path segment.
    pub fn to_string(&self) -> (r: String)
        ensures
            r@ == self.text(),
    {
        match self {
            Fils::HEADLINES => "top-headlines".to_owned(),
            Fils::EVERTHING => "everything".to_owned(),
        }
    }
}

impl Locs {
    /// The two-letter code that stands for the market in a request address.
    pub open spec fn text(self) -> Seq<char> {
        match self {
            Locs::US => "us"@,
            Locs::JAPAN => "jp"@,
            Locs::CANADA => "ca"@,
            Locs::GREATBRITAIN => "gb"@,
            Locs::RUSSIA => "rs"@,
            Locs::CHINA => "cn"@,
        }
    }

    /// Every market, in the order in which a menu offers them.
    pub open spec fn all() -> Seq<Locs> {
        seq![Locs::US, Locs::JAPAN, Locs::CANADA, Locs::CHINA, Locs::GREATBRITAIN, Locs::RUSSIA]
    }

    pub fn get_countries() -> (r: [Locs; 6])
        ensures
            r@ == Locs::all(),
    {
        [Locs::US, Locs::JAPAN, Locs::CANADA, Locs::CHINA, Locs::GREATBRITAIN, Locs::RUSSIA]
    }

    /// The market's two-letter code.
    pub fn to_string(&self) -> (r: String)
        ensures
            r@ == self.text(),
    {
        match self {
            Locs::US => "us".to_owned(),
            Locs::JAPAN => "jp".to_owned(),
            Locs::CANADA => "ca".to_owned(),
            Locs::GREATBRITAIN => "gb".to_owned(),
            Locs::RUSSIA => "rs".to_owned(),
            Locs::CHINA => "cn".to_owned(),
        }
    }
}

/// What the reader has chosen: a market and a feed.
#[derive(Clone, Copy, Debug, PartialEq, Eq, Structural)]
pub struct ApiRequest {
    pub country: Locs,
    pub end_point: Fils,
}

impl ApiRequest {
    /// The chosen feed, to read or to change.
    pub fn ep(&mut self) -> (r: &mut Fils)
        ensures
            *r == old(self).end_point,
            final(self).end_point == *final(r),
            final(self).country == old(self).country,
    {
        &mut self.end_point
    }

    /// The chosen market, to read or to change.
    pub fn cn(&mut self) -> (r: &mut Locs)
        ensures
            *r == old(self).country,
            final(self).country == *final(r),
            final(self).end_point == old(self).end_point,
    {
        &mut self.country
    }
}

} // verus!
