//! The feed's own metadata: title, description and base URL.  Turning
//! episodes into the feed document is left to the serving side.

use vstd::prelude::*;

verus! {

pub struct RSS {
    title: String,
    description: String,
    url: String,
}

pub struct RSSView {
    pub title: Seq<char>,
    pub description: Seq<char>,
    pub url: Seq<char>,
}

impl View for RSS {
    type V = RSSView;

    closed spec fn view(&self) -> RSSView {
        RSSView { title: self.title@, description: self.description@, url: self.url@ }
    }
}

impl RSS {
    pub fn new(title: &str, description: &str, url: &str) -> (r: Self)
        ensures
            r@.title == title@,
            r@.description == description@,
            r@.url == url@,
    {
        RSS { title: title.to_owned(), description: description.to_owned(), url: url.to_owned() }
    }

    pub fn title(&self) -> (r: &str)
        ensures
            r@ == self@.title,
    {
        self.title.as_str()
    }

    pub fn description(&self) -> (r: &str)
        ensures
            r@ == self@.description,
    {
        self.description.as_str()
    }

    pub fn url(&self) -> (r: &str)
        ensures
            r@ == self@.url,
    {
        self.url.as_str()
    }
}

} // verus!
