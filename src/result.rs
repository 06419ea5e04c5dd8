//! The record of a single fetch, as the one-page fetcher reports it.

use vstd::prelude::*;

use crate::text::has_prefix;
use crate::url_scheme::{Url, url_views};
use crate::html::{anchor_hrefs_of, extract_url, resolve_all};
use crate::task::{is_html, text_html};

verus! {

/// The header line above a table of results.
pub const RESULT_HEADER: &'static str = " Status | Content Type             | Links | URL";

/// What one fetch showed: the URL, its distance from the seed, the status,
/// the content type and the number of links found.
pub struct URLRequestResult {
    pub url: Url,
    pub distance: u16,
    pub status_code: u16,
    pub content_type: String,
    pub url_count: usize,
}

impl URLRequestResult {
    /// A record with nothing read yet.
    pub fn new(distance: u16, url: Url) -> (r: URLRequestResult)
        ensures
            r.url@ == url@,
            r.distance == distance,
            r.status_code == 0,
            r.content_type@.len() == 0,
            r.url_count == 0,
    {
        URLRequestResult { url, distance, status_code: 0, content_type: String::new(), url_count: 0 }
    }

    /// Records a response and returns the links that its body holds.
    ///
    /// A response without a `content-type` header, or whose content type
    /// does not start with `text/html`, yields no links; so does a body that
    /// could not be read (`None`).
    pub fn parse(&mut self, status: u16, content_type: Option<&str>, body: Option<&str>) -> (r:
        Option<Vec<Url>>)
        ensures
            final(self).url@ == old(self).url@,
            final(self).distance == old(self).distance,
            final(self).status_code == status,
            content_type is None ==> r is None && final(self).content_type@ == old(
                self,
            ).content_type@ && final(self).url_count == old(self).url_count,
            content_type is Some ==> final(self).content_type@ == content_type->Some_0@,
            content_type is Some && (!has_prefix(content_type->Some_0@, text_html()) || body is None)
                ==> r is None && final(self).url_count == old(self).url_count,
            content_type is Some && has_prefix(content_type->Some_0@, text_html()) && body is Some
                ==> ({
                let found = resolve_all(old(self).url@, anchor_hrefs_of(body->Some_0@));
                &&& r is Some
                &&& url_views(r->Some_0@) == found
                &&& final(self).url_count == found.len()
            }),
    {
        self.status_code = status;
        match content_type {
            None => return None,
            Some(ct) => {
                self.content_type = ct.to_owned();
                if !is_html(ct) {
                    return None;
                }
            },
        }
        match body {
            None => None,
            Some(text) => {
                let urls = extract_url(&self.url, text);
                assert(url_views(urls@).len() == urls@.len());
                self.url_count = urls.len();
                Some(urls)
            },
        }
    }
}

} // verus!
