//! One fetch: a URL with its depth, and what its response showed.

use vstd::prelude::*;
use crate::text::{has_prefix, starts_with};
use crate::url_scheme::{Url, url_views};
use crate::html::{anchor_hrefs_of, extract_url, resolve_all};

verus! {

/// The content type whose bodies are searched for links.
pub open spec fn text_html() -> Seq<char> {
    seq!['t', 'e', 'x', 't', '/', 'h', 't', 'm', 'l']
}

/// Whether a response of this content type is searched for links.
pub fn is_html(content_type: &str) -> (r: bool)
    ensures
        r == has_prefix(content_type@, text_html()),
{
    let r = starts_with(content_type, "text/html");
    proof {
        reveal_strlit("text/html");
        assert("text/html"@ =~= text_html());
    }
    r
}

/// What a response showed: its status, its content type, and how many links
/// were extracted from it (kept modulo 2^16).
pub struct TaskResult {
    pub status: u16,
    pub content_type: String,
    pub links: u16,
}

impl TaskResult {
    /// The result before any response: all zero and empty.
    pub fn new() -> (r: TaskResult)
        ensures
            r.status == 0,
            r.content_type@.len() == 0,
            r.links == 0,
    {
        TaskResult { status: 0, content_type: String::new(), links: 0 }
    }
}

/// A URL to fetch, the depth at which it was discovered, and the result of
/// the fetch once its response has been read.
pub struct RequestTask {
    pub url: Url,
    pub depth: u16,
    pub result: TaskResult,
}

impl RequestTask {
    /// A task whose result is still empty.
    pub fn new(url: Url, depth: u16) -> (r: RequestTask)
        ensures
            r.url@ == url@,
            r.depth == depth,
            r.result.status == 0,
            r.content_type_spec().len() == 0,
            r.result.links == 0,
    {
        RequestTask { url, depth, result: TaskResult::new() }
    }

    pub open spec fn content_type_spec(&self) -> Seq<char> {
        self.result.content_type@
    }

    /// The response's status, or 0 before any response.
    pub fn status(&self) -> (r: u16)
        ensures
            r == self.result.status,
    {
        self.result.status
    }

    /// The number of links extracted from the response, modulo 2^16.
    pub fn links(&self) -> (r: u16)
        ensures
            r == self.result.links,
    {
        self.result.links
    }

    /// The response's content type, empty where it had none.
    pub fn content_type(&self) -> (r: &str)
        ensures
            r@ == self.content_type_spec(),
    {
        self.result.content_type.as_str()
    }

    /// Records a response and returns the links that its body holds.
    ///
    /// `status` is the response's numeric status, `content_type` the value of
    /// its `content-type` header where it has one, and `body` its body read
    /// as text, or `None` where reading failed. Only a response whose content
    /// type starts with `text/html` is searched for links (its body is not
    /// looked at otherwise); the links are resolved against the task's URL.
    pub fn parse_response(
        &mut self,
        status: u16,
        content_type: Option<&str>,
        body: Option<&str>,
    ) -> (r: Option<Vec<Url>>)
        ensures
            final(self).url@ == old(self).url@,
            final(self).depth == old(self).depth,
            final(self).result.status == status,
            final(self).content_type_spec() == match content_type {
                Some(ct) => ct@,
                None => Seq::<char>::empty(),
            },
            !has_prefix(final(self).content_type_spec(), text_html()) ==> r is None
                && final(self).result.links == old(self).result.links,
            has_prefix(final(self).content_type_spec(), text_html()) && body is None ==> r is None
                && final(self).result.links == old(self).result.links,
            has_prefix(final(self).content_type_spec(), text_html()) && body is Some ==> ({
                let found = resolve_all(old(self).url@, anchor_hrefs_of(body->Some_0@));
                &&& r is Some
                &&& url_views(r->Some_0@) == found
                &&& final(self).result.links as int == found.len() as int % 65536
            }),
    {
        self.result.status = status;
        match content_type {
            None => {
                self.result.content_type = String::new();
            },
            Some(ct) => {
                self.result.content_type = ct.to_owned();
            },
        }
        if !is_html(self.result.content_type.as_str()) {
            return None;
        }
        match body {
            None => None,
            Some(html_body) => {
                let urls = extract_url(&self.url, html_body);
                proof {
                    assert(url_views(urls@).len() == urls@.len());
                }
                self.result.links = (urls.len() % 65536) as u16;
                Some(urls)
            },
        }
    }
}

} // verus!
