//! The crawl coordinator: a deduplicated frontier, the count of outstanding
//! tasks, and the rule that turns each fetch result into new admissions.
//!
//! The coordinator makes every decision and performs no I/O. Whoever runs a
//! crawl takes tasks from it with `take_task`, fetches them (one at a time,
//! on a pool of workers, or on asynchronous tasks), hands each outcome back
//! with `accept_result`, and stops when `done` says so.

use vstd::prelude::*;
use crate::url_scheme::{Url, url_views};
use crate::task::RequestTask;

verus! {

/// The coordinator's state in mathematical terms.
pub struct CrawlerView {
    /// The depth bound D.
    pub max_depth: nat,
    /// H: every URL ever admitted, in order of admission.
    pub history: Seq<Seq<char>>,
    /// The depth at which each URL of `history` was admitted.
    pub depths: Seq<nat>,
    /// How many tasks of `history`, from the front, have been taken out to
    /// be fetched; the rest form the frontier.
    pub dispatched: nat,
    /// N: admitted tasks whose result has not been accepted yet.
    pub pending: nat,
    /// How many results have been accepted.
    pub results: nat,
    /// How many links the accepted results brought from depths below D.
    pub discovered: nat,
}

/// A fetch outcome in mathematical terms: the links found and the depth of
/// the task that found them, or nothing on failure.
pub open spec fn outcome_view(result: Option<(Vec<Url>, u16)>) -> Option<(Seq<Seq<char>>, nat)> {
    match result {
        Some((urls, depth)) => Some((url_views(urls@), depth as nat)),
        None => None,
    }
}

/// The state in which a coordinator starts.
pub open spec fn initial_view(max_depth: nat) -> CrawlerView {
    CrawlerView {
        max_depth,
        history: Seq::empty(),
        depths: Seq::empty(),
        dispatched: 0,
        pending: 0,
        results: 0,
        discovered: 0,
    }
}

/// Admission: a URL absent from H joins H and the frontier, and N grows by
/// one; a URL already in H changes nothing.
pub open spec fn admit_spec(v: CrawlerView, url: Seq<char>, depth: nat) -> CrawlerView {
    if v.history.contains(url) {
        v
    } else {
        CrawlerView {
            history: v.history.push(url),
            depths: v.depths.push(depth),
            pending: v.pending + 1,
            ..v
        }
    }
}

/// Admission of each of `urls`, in order, at `depth`.
pub open spec fn admit_all(v: CrawlerView, urls: Seq<Seq<char>>, depth: nat) -> CrawlerView
    decreases urls.len(),
{
    if urls.len() == 0 {
        v
    } else {
        admit_spec(admit_all(v, urls.drop_last(), depth), urls.last(), depth)
    }
}

/// What accepting one result does: N falls by one; links found at a depth
/// d below D are admitted, in order, at depth d + 1.
pub open spec fn after_result(v: CrawlerView, result: Option<(Seq<Seq<char>>, nat)>) -> CrawlerView {
    let counted = CrawlerView { pending: (v.pending - 1) as nat, results: v.results + 1, ..v };
    match result {
        Some((urls, depth)) => if depth < v.max_depth {
            admit_all(
                CrawlerView { discovered: counted.discovered + urls.len(), ..counted },
                urls,
                depth + 1,
            )
        } else {
            counted
        },
        None => counted,
    }
}

/// The invariant of the coordinator.
pub open spec fn crawler_wf(v: CrawlerView) -> bool {
    &&& v.history.no_duplicates()
    &&& v.depths.len() == v.history.len()
    &&& forall|i: int| 0 <= i < v.depths.len() ==> v.depths[i] <= v.max_depth
    &&& v.dispatched <= v.history.len()
    &&& v.results + v.pending == v.history.len()
    &&& v.results <= v.dispatched
    &&& v.history.len() <= 1 + v.discovered
    &&& v.max_depth <= u16::MAX
}

/// The crawl coordinator.
pub struct Crawler {
    max_depth: u16,
    pending_tasks: usize,
    history: Vec<Url>,
    depths: Vec<u16>,
    dispatched: usize,
    results: Ghost<nat>,
    discovered: Ghost<nat>,
}

impl View for Crawler {
    type V = CrawlerView;

    closed spec fn view(&self) -> CrawlerView {
        CrawlerView {
            max_depth: self.max_depth as nat,
            history: url_views(self.history@),
            depths: self.depths@.map_values(|d: u16| d as nat),
            dispatched: self.dispatched as nat,
            pending: self.pending_tasks as nat,
            results: self.results@,
            discovered: self.discovered@,
        }
    }
}

impl Crawler {
    pub open spec fn wf(&self) -> bool {
        crawler_wf(self@)
    }

    /// A coordinator with depth bound `max_depth` that has admitted nothing.
    pub fn new(max_depth: u16) -> (r: Crawler)
        ensures
            r.wf(),
            r@ == initial_view(max_depth as nat),
    {
        let r = Crawler {
            max_depth,
            pending_tasks: 0,
            history: Vec::new(),
            depths: Vec::new(),
            dispatched: 0,
            results: Ghost(0),
            discovered: Ghost(0),
        };
        assert(r@.history =~= Seq::<Seq<char>>::empty());
        assert(r@.depths =~= Seq::<nat>::empty());
        r
    }

    /// Whether `url` is in H.
    pub fn is_admitted(&self, url: &Url) -> (r: bool)
        ensures
            r == self@.history.contains(url@),
    {
        let mut i: usize = 0;
        while i < self.history.len()
            invariant
                i <= self.history@.len(),
                forall|j: int| 0 <= j < i ==> self.history@[j]@ != url@,
            decreases self.history.len() - i,
        {
            if self.history[i].same_as(url) {
                assert(self@.history[i as int] == url@);
                return true;
            }
            i = i + 1;
        }
        assert forall|j: int| 0 <= j < self@.history.len() implies self@.history[j] != url@ by {
            assert(self@.history[j] == self.history@[j]@);
        }
        false
    }

    /// Admission of `url` at `depth`.
    fn add(&mut self, url: Url, depth: u16)
        requires
            old(self).wf(),
            depth <= old(self).max_depth,
            old(self)@.history.len() <= old(self)@.discovered || old(self)@.history.contains(url@),
        ensures
            final(self).wf(),
            final(self)@ == admit_spec(old(self)@, url@, depth as nat),
    {
        if self.is_admitted(&url) {
            return;
        }
        let ghost old_view = self@;
        let ghost u = url@;
        self.history.push(url);
        self.depths.push(depth);
        let len = self.history.len();
        self.pending_tasks = self.pending_tasks + 1;
        assert(self@.history =~= old_view.history.push(u));
        assert(self@.depths =~= old_view.depths.push(depth as nat));
        assert(self@.history.no_duplicates()) by {
            assert forall|i: int, j: int|
                0 <= i < self@.history.len() && 0 <= j < self@.history.len() && i != j
                implies self@.history[i] != self@.history[j] by {
                if i < old_view.history.len() && j < old_view.history.len() {
                } else if i < old_view.history.len() {
                    assert(old_view.history.contains(old_view.history[i]));
                } else {
                    assert(old_view.history.contains(old_view.history[j]));
                }
            }
        }
    }

    /// Admits the seed, at depth 0. It is the first admission; admitting
    /// the same seed again changes nothing.
    pub fn start(&mut self, root_url: Url)
        requires
            old(self).wf(),
            old(self)@.history.len() == 0 || old(self)@.history.contains(root_url@),
        ensures
            final(self).wf(),
            final(self)@ == admit_spec(old(self)@, root_url@, 0),
    {
        self.add(root_url, 0);
    }

    /// N = 0: every admitted task has been accounted for, and so the
    /// frontier is empty too.
    pub fn done(&self) -> (r: bool)
        requires
            self.wf(),
        ensures
            r == (self@.pending == 0),
            r == (self@.pending == 0 && self@.dispatched == self@.history.len()),
    {
        self.pending_tasks == 0
    }

    /// N, the number of admitted tasks whose result is still to come.
    pub fn pending_tasks(&self) -> (r: usize)
        ensures
            r == self@.pending,
    {
        self.pending_tasks
    }

    /// The number of URLs admitted so far.
    pub fn admitted_count(&self) -> (r: usize)
        ensures
            r == self@.history.len(),
    {
        self.history.len()
    }

    /// The number of tasks in the frontier, admitted but not yet taken.
    pub fn frontier_len(&self) -> (r: usize)
        requires
            self.wf(),
        ensures
            r == self@.history.len() - self@.dispatched,
    {
        self.history.len() - self.dispatched
    }

    /// The number of tasks taken out whose result has not come back.
    pub fn in_flight(&self) -> (r: usize)
        requires
            self.wf(),
        ensures
            r == self@.dispatched - self@.results,
    {
        self.pending_tasks - (self.history.len() - self.dispatched)
    }

    /// The depth bound D.
    pub fn max_depth(&self) -> (r: u16)
        ensures
            r == self@.max_depth,
    {
        self.max_depth
    }

    /// Takes the oldest task of the frontier out to be fetched.
    pub fn take_task(&mut self) -> (r: Option<RequestTask>)
        requires
            old(self).wf(),
        ensures
            final(self).wf(),
            old(self)@.dispatched < old(self)@.history.len() ==> ({
                let i = old(self)@.dispatched as int;
                &&& r is Some
                &&& r->Some_0.url@ == old(self)@.history[i]
                &&& r->Some_0.depth == old(self)@.depths[i]
                &&& r->Some_0.result.status == 0
                &&& r->Some_0.result.links == 0
                &&& r->Some_0.result.content_type@.len() == 0
                &&& final(self)@ == CrawlerView { dispatched: old(self)@.dispatched + 1, ..old(self)@ }
            }),
            old(self)@.dispatched == old(self)@.history.len() ==> r is None && final(self)@ == old(
                self,
            )@,
    {
        if self.dispatched < self.history.len() {
            let i = self.dispatched;
            let url = self.history[i].duplicate();
            let task = RequestTask::new(url, self.depths[i]);
            self.dispatched = i + 1;
            Some(task)
        } else {
            None
        }
    }

    /// Accounts for the result of one task taken out earlier: N falls by one,
    /// and where the task's depth is below D each link it found is admitted,
    /// in order, one level deeper.
    pub fn accept_result(&mut self, result: Option<(Vec<Url>, u16)>)
        requires
            old(self).wf(),
            old(self)@.results < old(self)@.dispatched,
        ensures
            final(self).wf(),
            final(self)@ == after_result(old(self)@, outcome_view(result)),
    {
        let ghost old_view = self@;
        self.pending_tasks = self.pending_tasks - 1;
        self.results = Ghost(self.results@ + 1);
        let ghost counted = self@;
        assert(counted == CrawlerView { pending: (old_view.pending - 1) as nat, results: old_view.results + 1, ..old_view });
        match result {
            None => {},
            Some((urls, depth)) => {
                if depth < self.max_depth {
                    let next = depth + 1;
                    let ghost all = url_views(urls@);
                    self.discovered = Ghost(self.discovered@ + urls@.len());
                    let ghost start = self@;
                    let n = urls.len();
                    let mut i: usize = 0;
                    while i < n
                        invariant
                            n == all.len(),
                            i <= n,
                            all == url_views(urls@),
                            next == depth + 1,
                            depth < self.max_depth,
                            self.wf(),
                            self@ == admit_all(start, all.subrange(0, i as int), next as nat),
                            self@.history.len() <= start.history.len() + i,
                            start.history.len() <= 1 + old_view.discovered,
                            start.discovered == old_view.discovered + n,
                            self@.discovered == start.discovered,
                        decreases n - i,
                    {
                        let url = urls[i].duplicate();
                        assert(url@ == all[i as int]);
                        self.add(url, next);
                        assert(all.subrange(0, i + 1).drop_last() =~= all.subrange(0, i as int));
                        i = i + 1;
                    }
                    assert(all.subrange(0, n as int) =~= all);
                }
            },
        }
    }
}

/// Every URL taken out to be fetched is in H, and H holds it at one place
/// only: it was admitted exactly once.
pub proof fn lemma_fetched_admitted_once(v: CrawlerView, i: int)
    requires
        crawler_wf(v),
        0 <= i < v.dispatched,
    ensures
        v.history.contains(v.history[i]),
        forall|j: int| 0 <= j < v.history.len() && v.history[j] == v.history[i] ==> j == i,
{
}

/// H never holds more than the seed and the links found on pages at
/// depths below D.
pub proof fn lemma_history_bounded_by_discoveries(v: CrawlerView)
    requires
        crawler_wf(v),
    ensures
        v.history.len() <= 1 + v.discovered,
{
}

/// The coordinator halts (N = 0) exactly when N = 0 and the frontier is
/// empty.
pub proof fn lemma_halts_iff_nothing_outstanding(v: CrawlerView)
    requires
        crawler_wf(v),
    ensures
        (v.pending == 0) == (v.pending == 0 && v.dispatched == v.history.len()),
{
}

/// Each result accepted belongs to a task taken out, and once N = 0 there
/// has been exactly one result for each admitted task.
pub proof fn lemma_one_result_per_task(v: CrawlerView)
    requires
        crawler_wf(v),
    ensures
        v.results <= v.dispatched,
        v.results + v.pending == v.history.len(),
        v.pending == 0 ==> v.results == v.history.len() && v.dispatched == v.history.len(),
{
}

/// No task is admitted at a depth above D.
pub proof fn lemma_admitted_depth_bounded(v: CrawlerView)
    requires
        crawler_wf(v),
    ensures
        forall|i: int| 0 <= i < v.depths.len() ==> v.depths[i] <= v.max_depth,
{
}

/// Admitting a URL that is already in H changes nothing: H and N stay.
pub proof fn lemma_readmission_is_noop(v: CrawlerView, url: Seq<char>, depth: nat)
    requires
        v.history.contains(url),
    ensures
        admit_spec(v, url, depth) == v,
{
}

/// Admitting links that are all in H already changes nothing.
pub proof fn lemma_admitting_known_links_is_noop(v: CrawlerView, urls: Seq<Seq<char>>, depth: nat)
    requires
        forall|i: int| 0 <= i < urls.len() ==> v.history.contains(urls[i]),
    ensures
        admit_all(v, urls, depth) == v,
    decreases urls.len(),
{
    if urls.len() > 0 {
        lemma_admitting_known_links_is_noop(v, urls.drop_last(), depth);
        assert(v.history.contains(urls[urls.len() - 1]));
    }
}

/// A result whose links are all in H already leaves H and the frontier as
/// they were; it only accounts for its task.
pub proof fn lemma_result_of_known_links(v: CrawlerView, urls: Seq<Seq<char>>, depth: nat)
    requires
        forall|i: int| 0 <= i < urls.len() ==> v.history.contains(urls[i]),
    ensures
        after_result(v, Some((urls, depth))).history == v.history,
        after_result(v, Some((urls, depth))).depths == v.depths,
        after_result(v, Some((urls, depth))).dispatched == v.dispatched,
        after_result(v, Some((urls, depth))).pending == (v.pending - 1) as nat,
{
    let counted = CrawlerView { pending: (v.pending - 1) as nat, results: v.results + 1, ..v };
    let c2 = CrawlerView { discovered: counted.discovered + urls.len(), ..counted };
    lemma_admitting_known_links_is_noop(c2, urls, depth + 1);
}

/// With D = 0 no result admits anything: the seed is the only fetch.
pub proof fn lemma_depth_zero_admits_nothing(
    v: CrawlerView,
    result: Option<(Seq<Seq<char>>, nat)>,
)
    requires
        v.max_depth == 0,
    ensures
        after_result(v, result).history == v.history,
        after_result(v, result).depths == v.depths,
{
}

/// Clamps the number of concurrent fetches to at least one.
pub fn clamp_workers(requested: usize) -> (r: usize)
    ensures
        r == if requested < 1 { 1 } else { requested },
{
    if requested < 1 { 1 } else { requested }
}

} // verus!
