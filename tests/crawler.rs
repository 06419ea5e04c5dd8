use web_crawler::crawler::{clamp_workers, Crawler};
use web_crawler::html::{extract_from_hrefs, extract_url, resolve};
use web_crawler::result::URLRequestResult;
use web_crawler::task::{is_html, RequestTask};
use web_crawler::text::starts_with;
use web_crawler::url_scheme::{is_http, Url, UrlError};

/// A static site: for each URL, its content type and body.
struct Site {
    pages: Vec<(&'static str, &'static str, &'static str)>,
}

impl Site {
    fn fetch(&self, task: &mut RequestTask) -> Option<Vec<Url>> {
        for (url, content_type, body) in &self.pages {
            if *url == task.url.as_str() {
                let body = if is_html(content_type) { Some(*body) } else { None };
                return task.parse_response(200, Some(*content_type), body);
            }
        }
        None
    }
}

fn url(s: &str) -> Url {
    Url::parse(s).unwrap()
}

/// Runs a crawl one fetch at a time; returns the fetched URLs in order, with
/// their depths and link counts.
fn crawl_sequential(site: &Site, seed: &str, max_depth: u16) -> (Vec<(String, u16, u16)>, Crawler) {
    let mut crawler = Crawler::new(max_depth);
    crawler.start(url(seed));
    let mut fetched = Vec::new();
    while !crawler.done() {
        let mut task = crawler.take_task().expect("a pending task is in the frontier");
        let urls = site.fetch(&mut task);
        fetched.push((task.url.as_str().to_string(), task.depth, task.links()));
        crawler.accept_result(urls.map(|u| (u, task.depth)));
    }
    (fetched, crawler)
}

#[test]
fn single_page_without_links() {
    let site = Site { pages: vec![("http://a/", "text/html", "<html></html>")] };
    let (fetched, crawler) = crawl_sequential(&site, "http://a/", 1);
    assert_eq!(fetched, vec![("http://a/".to_string(), 0, 0)]);
    assert!(crawler.done());
    assert_eq!(crawler.pending_tasks(), 0);
}

#[test]
fn depth_one_with_two_out_links() {
    let site = Site {
        pages: vec![
            ("http://a/", "text/html", "<a href=\"http://a/x\">x</a><a href=\"http://a/y\">y</a>"),
            ("http://a/x", "text/html", "<a href=\"http://a/z\">z</a>"),
            ("http://a/y", "text/html", ""),
        ],
    };
    let (fetched, crawler) = crawl_sequential(&site, "http://a/", 1);
    let urls: Vec<&str> = fetched.iter().map(|f| f.0.as_str()).collect();
    assert_eq!(urls, vec!["http://a/", "http://a/x", "http://a/y"]);
    assert_eq!(crawler.admitted_count(), 3);
    assert!(fetched.iter().all(|f| f.1 <= 1));
    assert_eq!(fetched[0].2, 2);
}

#[test]
fn cycle_is_fetched_once_each() {
    let site = Site {
        pages: vec![
            ("http://a/", "text/html", "<a href=\"/x\">x</a>"),
            ("http://a/x", "text/html", "<a href=\"/\">home</a>"),
        ],
    };
    let (fetched, crawler) = crawl_sequential(&site, "http://a/", 5);
    let urls: Vec<&str> = fetched.iter().map(|f| f.0.as_str()).collect();
    assert_eq!(urls, vec!["http://a/", "http://a/x"]);
    assert!(crawler.done());
}

#[test]
fn relative_href_is_resolved_against_task_url() {
    let site = Site {
        pages: vec![
            ("http://a/dir/", "text/html", "<a href=\"child\">c</a>"),
            ("http://a/dir/child", "text/html", ""),
        ],
    };
    let (fetched, _) = crawl_sequential(&site, "http://a/dir/", 1);
    assert_eq!(fetched[1].0, "http://a/dir/child");
}

#[test]
fn non_html_response_has_no_links() {
    let site = Site { pages: vec![("http://a/", "application/pdf", "<a href=\"x\">x</a>")] };
    let (fetched, crawler) = crawl_sequential(&site, "http://a/", 3);
    assert_eq!(fetched, vec![("http://a/".to_string(), 0, 0)]);
    assert_eq!(crawler.admitted_count(), 1);
}

#[test]
fn json_response_is_counted_without_extraction() {
    let mut task = RequestTask::new(url("http://a/"), 0);
    let found = task.parse_response(200, Some("application/json"), Some("<a href=\"x\">x</a>"));
    assert!(found.is_none());
    assert_eq!(task.links(), 0);
    assert_eq!(task.status(), 200);
    assert_eq!(task.content_type(), "application/json");
    let mut crawler = Crawler::new(1);
    crawler.start(url("http://a/"));
    let _ = crawler.take_task().unwrap();
    assert_eq!(crawler.in_flight(), 1);
    crawler.accept_result(None);
    assert!(crawler.done());
}

#[test]
fn depth_zero_fetches_only_the_seed() {
    let site = Site {
        pages: vec![("http://a/", "text/html", "<a href=\"http://a/x\">x</a>")],
    };
    let (fetched, crawler) = crawl_sequential(&site, "http://a/", 0);
    assert_eq!(fetched.len(), 1);
    assert_eq!(crawler.admitted_count(), 1);
}

#[test]
fn seed_linking_to_itself_is_fetched_once() {
    let site = Site {
        pages: vec![("http://a/", "text/html", "<a href=\"http://a/\">me</a><a href=\"/\">me</a>")],
    };
    let (fetched, crawler) = crawl_sequential(&site, "http://a/", 4);
    assert_eq!(fetched.len(), 1);
    assert_eq!(crawler.admitted_count(), 1);
}

#[test]
fn readmitting_a_known_url_changes_nothing() {
    let mut crawler = Crawler::new(2);
    crawler.start(url("http://a/"));
    let task = crawler.take_task().unwrap();
    crawler.accept_result(Some((vec![url("http://a/x"), url("http://a/x")], task.depth)));
    assert_eq!(crawler.admitted_count(), 2);
    assert_eq!(crawler.pending_tasks(), 1);
    let task = crawler.take_task().unwrap();
    assert_eq!(task.url.as_str(), "http://a/x");
    assert_eq!(task.depth, 1);
    crawler.accept_result(Some((vec![url("http://a/"), url("http://a/x")], task.depth)));
    assert_eq!(crawler.admitted_count(), 2);
    assert!(crawler.done());
    assert!(crawler.is_admitted(&url("http://a/x")));
    assert!(!crawler.is_admitted(&url("http://a/y")));
}

#[test]
fn starting_twice_with_the_same_seed_changes_nothing() {
    let mut crawler = Crawler::new(1);
    crawler.start(url("http://a/"));
    crawler.start(url("http://a/"));
    assert_eq!(crawler.admitted_count(), 1);
    assert_eq!(crawler.pending_tasks(), 1);
    assert_eq!(crawler.frontier_len(), 1);
}

#[test]
fn failed_fetch_is_still_accounted() {
    let site = Site { pages: vec![("http://a/", "text/html", "<a href=\"/gone\">g</a>")] };
    let (fetched, crawler) = crawl_sequential(&site, "http://a/", 1);
    assert_eq!(fetched.len(), 2);
    assert!(crawler.done());
}

#[test]
fn bounded_concurrency_never_exceeds_two() {
    let mut body = String::new();
    for i in 0..10 {
        body.push_str(&format!("<a href=\"/c{}\">c</a>", i));
    }
    let mut crawler = Crawler::new(1);
    crawler.start(url("http://a/"));
    let workers = clamp_workers(2);
    let mut in_progress: Vec<RequestTask> = Vec::new();
    let mut fetched = 0;
    let mut rounds = 0;
    while !crawler.done() {
        while in_progress.len() < workers {
            match crawler.take_task() {
                Some(t) => in_progress.push(t),
                None => break,
            }
        }
        assert!(crawler.in_flight() <= 2);
        let mut task = in_progress.remove(0);
        let found = if task.url.as_str() == "http://a/" {
            task.parse_response(200, Some("text/html"), Some(&body))
        } else {
            task.parse_response(200, Some("text/html"), Some(""))
        };
        fetched += 1;
        crawler.accept_result(found.map(|u| (u, task.depth)));
        rounds += 1;
    }
    assert_eq!(fetched, 11);
    assert_eq!(rounds, 11);
    assert_eq!(crawler.admitted_count(), 11);
}

#[test]
fn zero_workers_are_clamped_to_one() {
    assert_eq!(clamp_workers(0), 1);
    assert_eq!(clamp_workers(1), 1);
    assert_eq!(clamp_workers(7), 7);
}

#[test]
fn the_frontier_keeps_admission_order() {
    let mut crawler = Crawler::new(3);
    crawler.start(url("http://a/"));
    assert_eq!(crawler.frontier_len(), 1);
    let seed = crawler.take_task().unwrap();
    assert_eq!(seed.depth, 0);
    assert!(crawler.take_task().is_none());
    crawler.accept_result(Some((vec![url("http://a/2"), url("http://a/1")], 0)));
    assert_eq!(crawler.frontier_len(), 2);
    assert_eq!(crawler.take_task().unwrap().url.as_str(), "http://a/2");
    assert_eq!(crawler.take_task().unwrap().url.as_str(), "http://a/1");
    assert_eq!(crawler.max_depth(), 3);
}

#[test]
fn links_at_the_depth_bound_are_not_followed() {
    let mut crawler = Crawler::new(1);
    crawler.start(url("http://a/"));
    let _ = crawler.take_task().unwrap();
    crawler.accept_result(Some((vec![url("http://a/x")], 0)));
    let child = crawler.take_task().unwrap();
    crawler.accept_result(Some((vec![url("http://a/deeper")], child.depth)));
    assert_eq!(crawler.admitted_count(), 2);
    assert!(crawler.done());
}

#[test]
fn url_parse_and_join() {
    let base = url("http://a/dir/");
    assert_eq!(base.as_str(), "http://a/dir/");
    assert_eq!(base.join("child").unwrap().as_str(), "http://a/dir/child");
    assert_eq!(base.join("../up").unwrap().as_str(), "http://a/up");
    assert!(matches!(Url::parse("child"), Err(UrlError::RelativeUrlWithoutBase)));
    assert!(matches!(Url::parse("http://[oops"), Err(UrlError::Invalid)));
    assert!(url("HTTP://A/").same_as(&url("http://a/")));
    assert_eq!(url("http://a").duplicate().as_str(), "http://a/");
}

#[test]
fn only_http_schemes_are_http() {
    assert!(is_http(&url("http://a/")));
    assert!(is_http(&url("https://a/")));
    assert!(!is_http(&url("ftp://a/")));
    assert!(!is_http(&url("httpx://a/")));
    assert!(!is_http(&url("http+unix://a/")));
    assert!(is_http(&url("HTTPS://a/")));
    assert!(!is_http(&url("mailto:someone@example.com")));
}

#[test]
fn resolve_keeps_absolute_and_drops_malformed() {
    let base = url("http://a/dir/page");
    assert_eq!(resolve(&base, "https://b/q").unwrap().as_str(), "https://b/q");
    assert_eq!(resolve(&base, "other").unwrap().as_str(), "http://a/dir/other");
    assert!(resolve(&base, "http://[bad").is_none());
    let hrefs = vec!["x".to_string(), "http://[bad".to_string(), "/y".to_string()];
    let urls: Vec<String> = extract_from_hrefs(&base, &hrefs)
        .iter()
        .map(|u| u.as_str().to_string())
        .collect();
    assert_eq!(urls, vec!["http://a/dir/x", "http://a/y"]);
}

#[test]
fn extract_url_walks_anchors_in_document_order() {
    let base = url("http://a/");
    let html = "<p><a href=\"/one\">1</a><a>no link</a><div><a href=\"two\">2</a></div></p>";
    let urls: Vec<String> = extract_url(&base, html)
        .iter()
        .map(|u| u.as_str().to_string())
        .collect();
    assert_eq!(urls, vec!["http://a/one", "http://a/two"]);
}

#[test]
fn html_content_type_check() {
    assert!(is_html("text/html"));
    assert!(is_html("text/html; charset=utf-8"));
    assert!(!is_html("text/plain"));
    assert!(!is_html(""));
    assert!(starts_with("abc", "ab"));
    assert!(!starts_with("ab", "abc"));
}

#[test]
fn task_without_body_or_header() {
    let mut task = RequestTask::new(url("http://a/"), 3);
    assert!(task.parse_response(404, Some("text/html"), None).is_none());
    assert_eq!(task.status(), 404);
    let mut task = RequestTask::new(url("http://a/"), 3);
    assert!(task.parse_response(204, None, None).is_none());
    assert_eq!(task.content_type(), "");
    assert!(task.parse_response(200, Some("text/plain"), None).is_none());
    assert_eq!(task.content_type(), "text/plain");
    assert!(task.parse_response(200, None, Some("<a href=\"x\">x</a>")).is_none());
    assert_eq!(task.content_type(), "");
    assert_eq!(task.links(), 0);
}

#[test]
fn request_result_records_a_fetch() {
    let mut result = URLRequestResult::new(0, url("http://a/"));
    let found = result
        .parse(200, Some("text/html"), Some("<a href=\"b\">b</a><a href=\"c\">c</a>"))
        .unwrap();
    assert_eq!(found.len(), 2);
    assert_eq!(result.url_count, 2);
    assert_eq!(result.status_code, 200);
    let mut result = URLRequestResult::new(0, url("http://a/"));
    assert!(result.parse(200, None, Some("<a href=\"b\">b</a>")).is_none());
    assert_eq!(result.content_type, "");
}
