//! Link extraction: the `href`s of an HTML document's anchors, resolved to
//! absolute URLs.

use vstd::prelude::*;
use crate::url_scheme::{Url, UrlError, url_parse_of, url_join_of, url_views};

verus! {

/// The `href` attribute values of the document's `a` elements, in document
/// order, as the select crate reads the document.
pub uninterp spec fn anchor_hrefs_of(html: Seq<char>) -> Seq<Seq<char>>;

/// Relies on `select::document::Document::from` to parse the HTML,
/// `Document::find(Name("a"))` to walk its anchors in document order and
/// `Node::attr("href")` to read each one's link; anchors without one are
/// passed over.
#[verifier::external_body]
fn anchor_hrefs(html: &str) -> (r: Vec<String>)
    ensures
        r.deep_view() == anchor_hrefs_of(html@),
{
    let document = select::document::Document::from(html);
    document
        .find(select::predicate::Name("a"))
        .filter_map(|node| node.attr("href"))
        .map(String::from)
        .collect::<Vec<String>>()
}

/// What one `href` becomes: an absolute URL as it stands; else, a relative
/// reference resolved against `base`; else nothing.
pub open spec fn resolve_spec(base: Seq<char>, href: Seq<char>) -> Option<Seq<char>> {
    match url_parse_of(href) {
        Ok(u) => Some(u),
        Err(UrlError::RelativeUrlWithoutBase) => url_join_of(base, href),
        Err(_) => None,
    }
}

/// The URLs that the `href`s resolve to against `base`, in order, those
/// that resolve to nothing left out.
pub open spec fn resolve_all(base: Seq<char>, hrefs: Seq<Seq<char>>) -> Seq<Seq<char>>
    decreases hrefs.len(),
{
    if hrefs.len() == 0 {
        Seq::empty()
    } else {
        let rest = resolve_all(base, hrefs.drop_last());
        match resolve_spec(base, hrefs.last()) {
            Some(u) => rest.push(u),
            None => rest,
        }
    }
}

/// Resolves one `href` against `base`.
pub fn resolve(base: &Url, href: &str) -> (r: Option<Url>)
    ensures
        match r {
            Some(u) => resolve_spec(base@, href@) == Some(u@),
            None => resolve_spec(base@, href@) == None::<Seq<char>>,
        },
{
    match Url::parse(href) {
        Ok(url) => Some(url),
        Err(UrlError::RelativeUrlWithoutBase) => base.join(href),
        Err(_) => None,
    }
}

/// Resolves each of the `hrefs` against `from`, in order, and keeps those
/// that give a URL.
pub fn extract_from_hrefs(from: &Url, hrefs: &Vec<String>) -> (r: Vec<Url>)
    ensures
        url_views(r@) == resolve_all(from@, hrefs.deep_view()),
{
    let mut out: Vec<Url> = Vec::new();
    let mut i: usize = 0;
    while i < hrefs.len()
        invariant
            i <= hrefs.len(),
            url_views(out@) == resolve_all(from@, hrefs.deep_view().subrange(0, i as int)),
        decreases hrefs.len() - i,
    {
        let ghost before = out@;
        let found = resolve(from, hrefs[i].as_str());
        proof {
            let hs = hrefs.deep_view().subrange(0, i + 1);
            assert(hs.drop_last() =~= hrefs.deep_view().subrange(0, i as int));
            assert(hs.last() == hrefs@[i as int]@);
        }
        match found {
            Some(u) => {
                out.push(u);
                assert(url_views(out@) =~= url_views(before).push(out@.last()@));
            },
            None => {},
        }
        i = i + 1;
    }
    assert(hrefs.deep_view().subrange(0, i as int) =~= hrefs.deep_view());
    out
}

/// The absolute URLs that the anchors of `document` link to, in document
/// order, relative ones resolved against `from`.
pub fn extract_url(from: &Url, document: &str) -> (r: Vec<Url>)
    ensures
        url_views(r@) == resolve_all(from@, anchor_hrefs_of(document@)),
{
    let hrefs = anchor_hrefs(document);
    extract_from_hrefs(from, &hrefs)
}

} // verus!
