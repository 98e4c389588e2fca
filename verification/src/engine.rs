//! The traversal: a state machine that is told what each request brought
//! and says what to do next.
//!
//! The crawl proceeds in layers. The links of the root page are the first
//! layer. Each URL of a layer is either passed over (it failed before, was
//! visited before, is on another host, or sits at the depth limit) or
//! handed out to be fetched; the links of the pages fetched make up the next
//! layer. The crawl is over when a layer leaves no links behind.
//!
//! The machine never performs a request. [`Crawler::advance`] takes the
//! decision for one URL, and the caller reports the outcome of a request
//! with [`Crawler::fetched`] or [`Crawler::failed`].

use vstd::prelude::*;
use crate::links::{get_links, holds, links_added, push_new, with_new};
use crate::scope::{depth_control, depth_cutoff, is_same_domain, same_domain};

verus! {

/// Why a URL is passed over without a request.
#[derive(Debug, Clone, Copy, PartialEq, Eq, Structural)]
pub enum SkipReason {
    /// A request for it failed earlier in this crawl.
    FailedBefore,
    /// It is in the visited set already.
    AlreadyVisited,
    /// It is not on the root's host.
    OtherDomain,
    /// It sits at exactly the depth limit.
    DepthLimit,
}

/// What the caller is to do next.
#[derive(Debug, Clone, PartialEq, Eq)]
pub enum Step {
    /// Request this URL, then report with `fetched` or `failed`.
    Fetch(String),
    /// This URL was passed over; nothing to do.
    Skipped(String, SkipReason),
    /// A layer is finished and the next one begins; nothing to do.
    NextLayer,
    /// The crawl is over.
    Done,
}

/// The mathematical value of a [`Step`].
pub enum StepModel {
    Fetch(Seq<char>),
    Skipped(Seq<char>, SkipReason),
    NextLayer,
    Done,
}

impl View for Step {
    type V = StepModel;

    open spec fn view(&self) -> StepModel {
        match *self {
            Step::Fetch(url) => StepModel::Fetch(url@),
            Step::Skipped(url, reason) => StepModel::Skipped(url@, reason),
            Step::NextLayer => StepModel::NextLayer,
            Step::Done => StepModel::Done,
        }
    }
}

/// The decision for one URL, from the four facts that it rests on, tested
/// in this order; `None` means that the URL is to be fetched.
pub open spec fn skip_reason(
    failed_before: bool,
    visited: bool,
    on_root_host: bool,
    at_depth_limit: bool,
) -> Option<SkipReason> {
    if failed_before {
        Some(SkipReason::FailedBefore)
    } else if visited {
        Some(SkipReason::AlreadyVisited)
    } else if !on_root_host {
        Some(SkipReason::OtherDomain)
    } else if at_depth_limit {
        Some(SkipReason::DepthLimit)
    } else {
        None
    }
}

/// `list` without the entries equal to `url`.
pub open spec fn without(list: Seq<Seq<char>>, url: Seq<char>) -> Seq<Seq<char>>
    decreases list.len(),
{
    if list.len() == 0 {
        list
    } else {
        let rest = without(list.drop_last(), url);
        if list.last() == url {
            rest
        } else {
            rest.push(list.last())
        }
    }
}

/// `acc` with each entry of `extra` added at the end, in order, where it
/// is new.
pub open spec fn merged(acc: Seq<Seq<char>>, extra: Seq<Seq<char>>) -> Seq<Seq<char>>
    decreases extra.len(),
{
    if extra.len() == 0 {
        acc
    } else {
        with_new(merged(acc, extra.drop_last()), extra.last())
    }
}

/// The state of a crawl.
pub struct CrawlModel {
    pub root: Seq<char>,
    pub depth: i32,
    /// The URLs reached so far, in the order in which they were recorded.
    pub visited: Seq<Seq<char>>,
    /// The URLs whose request failed.
    pub errors: Seq<Seq<char>>,
    /// The layer that is being worked through.
    pub layer: Seq<Seq<char>>,
    /// How many URLs of the layer are dealt with.
    pub position: int,
    /// The links found so far for the next layer.
    pub frontier: Seq<Seq<char>>,
    /// Whether the URL at `position` has been handed out to be fetched.
    pub awaiting: bool,
}

impl CrawlModel {
    /// The state in which a crawl begins: nothing visited, and the links
    /// of the root page waiting as the first layer to come.
    pub open spec fn seeded(root: Seq<char>, depth: i32, root_html: Seq<char>) -> CrawlModel {
        CrawlModel {
            root,
            depth,
            visited: Seq::empty(),
            errors: Seq::empty(),
            layer: Seq::empty(),
            position: 0,
            frontier: links_added(Seq::empty(), root, root_html),
            awaiting: false,
        }
    }

    /// The URL whose turn it is.
    pub open spec fn current(self) -> Seq<char> {
        self.layer[self.position]
    }

    /// The decision for the URL whose turn it is.
    pub open spec fn verdict(self) -> Option<SkipReason> {
        skip_reason(
            self.errors.contains(self.current()),
            self.visited.contains(self.current()),
            same_domain(self.root, self.current()),
            depth_cutoff(self.current(), self.depth),
        )
    }

    /// What holds of every state that a crawl goes through: neither set
    /// holds a URL twice, no URL is in both, and a URL handed out to be
    /// fetched is in neither and in scope.
    pub open spec fn wf(self) -> bool {
        &&& 0 <= self.position <= self.layer.len()
        &&& self.visited.no_duplicates()
        &&& self.errors.no_duplicates()
        &&& forall|url: Seq<char>| !(self.visited.contains(url) && self.errors.contains(url))
        &&& self.awaiting ==> self.position < self.layer.len() && self.verdict() is None
    }

    /// The state after the URL whose turn it is has been passed over for
    /// `reason`.
    pub open spec fn passed_over(self, reason: SkipReason) -> CrawlModel {
        CrawlModel {
            visited: match reason {
                SkipReason::FailedBefore => without(self.visited, self.current()),
                _ => with_new(self.visited, self.current()),
            },
            position: self.position + 1,
            ..self
        }
    }

    /// The state and the step that one call of `advance` leads to.
    pub open spec fn advanced(self) -> (CrawlModel, StepModel) {
        if self.position < self.layer.len() {
            match self.verdict() {
                Some(reason) => (
                    self.passed_over(reason),
                    StepModel::Skipped(self.current(), reason),
                ),
                None => (CrawlModel { awaiting: true, ..self }, StepModel::Fetch(self.current())),
            }
        } else if self.frontier.len() > 0 {
            (
                CrawlModel { layer: self.frontier, position: 0, frontier: Seq::empty(), ..self },
                StepModel::NextLayer,
            )
        } else {
            (self, StepModel::Done)
        }
    }

    /// The state after the page `html` came back for the URL handed out.
    pub open spec fn succeeded(self, html: Seq<char>) -> CrawlModel {
        CrawlModel {
            visited: with_new(self.visited, self.current()),
            frontier: links_added(self.frontier, self.current(), html),
            position: self.position + 1,
            awaiting: false,
            ..self
        }
    }

    /// The state after the request for the URL handed out failed.
    pub open spec fn failed(self) -> CrawlModel {
        CrawlModel {
            errors: self.errors.push(self.current()),
            visited: without(self.visited, self.current()),
            position: self.position + 1,
            awaiting: false,
            ..self
        }
    }

    /// The URLs to report: the visited ones, followed on request by those
    /// that failed.
    pub open spec fn report(self, include_errors: bool) -> Seq<Seq<char>> {
        if include_errors {
            merged(self.visited, self.errors)
        } else {
            self.visited
        }
    }
}

/// A list loses nothing when a URL that it does not hold is taken out.
pub proof fn lemma_without_absent(list: Seq<Seq<char>>, url: Seq<char>)
    requires
        !list.contains(url),
    ensures
        without(list, url) == list,
    decreases list.len(),
{
    if list.len() > 0 {
        let front = list.drop_last();
        assert forall|u: Seq<char>| front.contains(u) implies list.contains(u) by {
            let k = choose|k: int| 0 <= k < front.len() && front[k] == u;
            assert(list[k] == u);
        }
        lemma_without_absent(front, url);
    }
}

/// Takes the decision for one URL from the four facts that it rests on.
pub fn classify(failed_before: bool, visited: bool, on_root_host: bool, at_depth_limit: bool) -> (r:
    Option<SkipReason>)
    ensures
        r == skip_reason(failed_before, visited, on_root_host, at_depth_limit),
{
    if failed_before {
        Some(SkipReason::FailedBefore)
    } else if visited {
        Some(SkipReason::AlreadyVisited)
    } else if !on_root_host {
        Some(SkipReason::OtherDomain)
    } else if at_depth_limit {
        Some(SkipReason::DepthLimit)
    } else {
        None
    }
}

/// Removes every entry equal to `url` from `list`.
pub fn discard(list: &mut Vec<String>, url: &String)
    ensures
        final(list).deep_view() == without(old(list).deep_view(), url@),
{
    let ghost all: Seq<Seq<char>> = list.deep_view();
    let mut kept: Vec<String> = Vec::new();
    let mut i: usize = 0;
    while i < list.len()
        invariant
            i <= list.len(),
            all == list.deep_view(),
            kept.deep_view() == without(all.take(i as int), url@),
        decreases list.len() - i,
    {
        proof {
            let next = all.take(i + 1);
            assert(next.drop_last() == all.take(i as int));
        }
        if !(list[i] == *url) {
            kept.push(list[i].clone());
        }
        i = i + 1;
    }
    proof {
        assert(all.take(i as int) == all);
    }
    *list = kept;
}

/// Copies a list of URLs.
fn copy_of(list: &Vec<String>) -> (copy: Vec<String>)
    ensures
        copy.deep_view() == list.deep_view(),
{
    let mut copy: Vec<String> = Vec::new();
    let mut i: usize = 0;
    while i < list.len()
        invariant
            i <= list.len(),
            copy.len() == i,
            forall|k: int| 0 <= k < i ==> copy@[k]@ == list@[k]@,
        decreases list.len() - i,
    {
        copy.push(list[i].clone());
        i = i + 1;
    }
    copy
}

/// The crawl engine. It owns the visited set, the error set and the
/// frontier for the length of one crawl.
pub struct Crawler {
    root: String,
    depth: i32,
    visited: Vec<String>,
    errors: Vec<String>,
    layer: Vec<String>,
    position: usize,
    frontier: Vec<String>,
    awaiting: bool,
}

impl View for Crawler {
    type V = CrawlModel;

    closed spec fn view(&self) -> CrawlModel {
        CrawlModel {
            root: self.root@,
            depth: self.depth,
            visited: self.visited.deep_view(),
            errors: self.errors.deep_view(),
            layer: self.layer.deep_view(),
            position: self.position as int,
            frontier: self.frontier.deep_view(),
            awaiting: self.awaiting,
        }
    }
}

impl Crawler {
    /// Begins a crawl at `root`, whose page `root_html` the caller has
    /// fetched. A `depth` of 0 sets no limit.
    pub fn new(root: String, depth: i32, root_html: &str) -> (crawler: Crawler)
        ensures
            crawler@ == CrawlModel::seeded(root@, depth, root_html@),
            crawler@.wf(),
    {
        let mut frontier: Vec<String> = Vec::new();
        get_links(root_html, root.as_str(), &mut frontier);
        let visited: Vec<String> = Vec::new();
        let errors: Vec<String> = Vec::new();
        let layer: Vec<String> = Vec::new();
        assert(layer.deep_view() == Seq::<Seq<char>>::empty());
        Crawler { root, depth, visited, errors, layer, position: 0, frontier, awaiting: false }
    }

    /// Takes the decision for the URL whose turn it is, or moves on to the
    /// next layer, or finds the crawl over.
    ///
    /// While a URL is handed out and its outcome not reported, every call
    /// hands out the same URL again.
    pub fn advance(&mut self) -> (step: Step)
        requires
            old(self)@.wf(),
        ensures
            (final(self)@, step@) == old(self)@.advanced(),
            final(self)@.wf(),
    {
        if self.position < self.layer.len() {
            let url: String = self.layer[self.position].clone();
            let verdict = classify(
                holds(&self.errors, &url),
                holds(&self.visited, &url),
                is_same_domain(self.root.as_str(), url.as_str()),
                depth_control(url.as_str(), self.depth),
            );
            match verdict {
                Some(reason) => {
                    match reason {
                        SkipReason::FailedBefore => {
                            proof {
                                lemma_without_absent(self@.visited, url@);
                            }
                            discard(&mut self.visited, &url);
                        },
                        _ => {
                            push_new(&mut self.visited, url.clone());
                        },
                    }
                    self.position = self.position + 1;
                    proof {
                        lemma_with_new_distinct(old(self)@.visited, url@);
                    }
                    Step::Skipped(url, reason)
                },
                None => {
                    self.awaiting = true;
                    Step::Fetch(url)
                },
            }
        } else if self.frontier.len() > 0 {
            let mut next: Vec<String> = Vec::new();
            assert(next.deep_view() == Seq::<Seq<char>>::empty());
            std::mem::swap(&mut self.frontier, &mut next);
            self.layer = next;
            self.position = 0;
            Step::NextLayer
        } else {
            Step::Done
        }
    }

    /// Records that the request for the URL handed out brought the page
    /// `body`: the URL is visited, and its links join the next layer.
    ///
    /// Returns whether a URL was handed out; where none was, nothing
    /// changes.
    pub fn fetched(&mut self, body: &str) -> (accepted: bool)
        requires
            old(self)@.wf(),
        ensures
            accepted == old(self)@.awaiting,
            final(self)@ == (if old(self)@.awaiting {
                old(self)@.succeeded(body@)
            } else {
                old(self)@
            }),
            final(self)@.wf(),
    {
        if !self.awaiting {
            return false;
        }
        assert(self.layer.deep_view().len() == self.layer.len());
        let url: String = self.layer[self.position].clone();
        let next: usize = self.position + 1;
        proof {
            lemma_with_new_distinct(self@.visited, url@);
        }
        push_new(&mut self.visited, url.clone());
        get_links(body, url.as_str(), &mut self.frontier);
        self.position = next;
        self.awaiting = false;
        true
    }

    /// Records that the request for the URL handed out failed: the URL
    /// joins the error set and is kept out of the visited set.
    ///
    /// Returns whether a URL was handed out; where none was, nothing
    /// changes.
    pub fn failed(&mut self) -> (accepted: bool)
        requires
            old(self)@.wf(),
        ensures
            accepted == old(self)@.awaiting,
            final(self)@ == (if old(self)@.awaiting {
                old(self)@.failed()
            } else {
                old(self)@
            }),
            final(self)@.wf(),
    {
        if !self.awaiting {
            return false;
        }
        assert(self.layer.deep_view().len() == self.layer.len());
        let url: String = self.layer[self.position].clone();
        let next: usize = self.position + 1;
        proof {
            lemma_without_absent(self@.visited, url@);
            lemma_push_distinct(self@.errors, url@);
        }
        discard(&mut self.visited, &url);
        let ghost before = self.errors.deep_view();
        self.errors.push(url);
        assert(self.errors.deep_view() == before.push(url@));
        self.position = next;
        self.awaiting = false;
        true
    }

    /// The URLs reached so far, in the order in which they were recorded.
    pub fn visited(&self) -> (list: &Vec<String>)
        ensures
            list.deep_view() == self@.visited,
    {
        &self.visited
    }

    /// The URLs whose request failed, in the order of the failures.
    pub fn errors(&self) -> (list: &Vec<String>)
        ensures
            list.deep_view() == self@.errors,
    {
        &self.errors
    }

    /// Whether a URL is handed out and its outcome not reported yet.
    pub fn is_awaiting(&self) -> (r: bool)
        ensures
            r == self@.awaiting,
    {
        self.awaiting
    }

    /// The URLs to report when the crawl is over: the visited ones, and
    /// after them, where `include_errors` is set, those that failed.
    pub fn report(&self, include_errors: bool) -> (list: Vec<String>)
        ensures
            list.deep_view() == self@.report(include_errors),
    {
        let mut list: Vec<String> = copy_of(&self.visited);
        if include_errors {
            let ghost extra: Seq<Seq<char>> = self.errors.deep_view();
            let mut i: usize = 0;
            while i < self.errors.len()
                invariant
                    i <= self.errors.len(),
                    extra == self.errors.deep_view(),
                    list.deep_view() == merged(self.visited.deep_view(), extra.take(i as int)),
                decreases self.errors.len() - i,
            {
                proof {
                    let next = extra.take(i + 1);
                    assert(next.drop_last() == extra.take(i as int));
                }
                push_new(&mut list, self.errors[i].clone());
                i = i + 1;
            }
            proof {
                assert(extra.take(i as int) == extra);
            }
        }
        list
    }
}

/// A list without repetitions has none after a new URL is added.
pub proof fn lemma_push_distinct(list: Seq<Seq<char>>, url: Seq<char>)
    requires
        list.no_duplicates(),
        !list.contains(url),
    ensures
        list.push(url).no_duplicates(),
        forall|u: Seq<char>| list.push(url).contains(u) <==> (list.contains(u) || u == url),
{
    let longer = list.push(url);
    assert forall|u: Seq<char>| longer.contains(u) <==> (list.contains(u) || u == url) by {
        if list.contains(u) {
            let k = choose|k: int| 0 <= k < list.len() && list[k] == u;
            assert(longer[k] == u);
        }
        if u == url {
            assert(longer[list.len() as int] == u);
        }
    }
}

/// A list without repetitions has none after a URL is added where it is
/// new, and then holds that URL and what it held before.
pub proof fn lemma_with_new_distinct(list: Seq<Seq<char>>, url: Seq<char>)
    requires
        list.no_duplicates(),
    ensures
        with_new(list, url).no_duplicates(),
        forall|u: Seq<char>| with_new(list, url).contains(u) <==> (list.contains(u) || u == url),
{
    if !list.contains(url) {
        lemma_push_distinct(list, url);
    }
}

/// A list that is merged into holds afterwards what it held before and
/// every entry merged in, and nothing twice if it held nothing twice.
pub proof fn lemma_merged_holds_all(acc: Seq<Seq<char>>, extra: Seq<Seq<char>>)
    requires
        acc.no_duplicates(),
    ensures
        merged(acc, extra).no_duplicates(),
        forall|u: Seq<char>| #[trigger]
            merged(acc, extra).contains(u) <==> (acc.contains(u) || extra.contains(u)),
    decreases extra.len(),
{
    let all = merged(acc, extra);
    if extra.len() > 0 {
        let front = extra.drop_last();
        let before = merged(acc, front);
        lemma_merged_holds_all(acc, front);
        lemma_with_new_distinct(before, extra.last());
        assert forall|u: Seq<char>| #[trigger] all.contains(u) <==> (acc.contains(u)
            || extra.contains(u)) by {
            assert(before.contains(u) <==> (acc.contains(u) || front.contains(u)));
            if front.contains(u) {
                let k = choose|k: int| 0 <= k < front.len() && front[k] == u;
                assert(extra[k] == u);
            }
            if extra.contains(u) {
                let k = choose|k: int| 0 <= k < extra.len() && extra[k] == u;
                if k < front.len() {
                    assert(front[k] == u);
                }
            }
        }
    }
}

/// Whether `post` is a state that the crawl can be in one move after
/// `pre`: after the report of an outcome where a URL is handed out, and
/// after a call of `advance` that did not find the crawl over otherwise.
pub open spec fn moves_to(pre: CrawlModel, post: CrawlModel) -> bool {
    if pre.awaiting {
        post == pre.failed() || exists|html: Seq<char>| post == #[trigger] pre.succeeded(html)
    } else {
        pre.advanced().1 != StepModel::Done && post == pre.advanced().0
    }
}

impl CrawlModel {
    /// Whether every URL that waits in the layer or in the frontier is one
    /// of `universe`.
    pub open spec fn within(self, universe: Set<Seq<char>>) -> bool {
        &&& forall|i: int| 0 <= i < self.layer.len() ==> universe.contains(#[trigger] self.layer[i])
        &&& forall|i: int|
            0 <= i < self.frontier.len() ==> universe.contains(#[trigger] self.frontier[i])
    }

    /// The URLs of `universe` that are neither visited nor failed.
    pub open spec fn unseen(self, universe: Set<Seq<char>>) -> Set<Seq<char>> {
        Set::new(
            |url: Seq<char>|
                universe.contains(url) && !self.visited.contains(url) && !self.errors.contains(
                    url,
                ),
        )
    }

    /// What is left to do, as four numbers of which the earlier count
    /// more: the unseen URLs, whether a next layer waits, the rest of the
    /// layer, and whether the decision for the current URL is still open.
    pub open spec fn work_left(self, universe: Set<Seq<char>>) -> (nat, nat, nat, nat) {
        (
            self.unseen(universe).len(),
            if self.frontier.len() > 0 {
                1
            } else {
                0
            },
            (self.layer.len() - self.position) as nat,
            if self.awaiting {
                0
            } else {
                1
            },
        )
    }
}

/// The order on quadruples in which the first difference decides.
pub open spec fn less_work(a: (nat, nat, nat, nat), b: (nat, nat, nat, nat)) -> bool {
    a.0 < b.0 || (a.0 == b.0 && (a.1 < b.1 || (a.1 == b.1 && (a.2 < b.2 || (a.2 == b.2 && a.3
        < b.3)))))
}

/// A URL is handed out only if it is in scope and was neither visited nor
/// failed before, and once its outcome is reported it is visited or failed.
/// As no move takes a URL out of either set, no URL is handed out twice.
pub proof fn lemma_fetched_at_most_once(pre: CrawlModel, html: Seq<char>)
    requires
        pre.wf(),
        pre.position < pre.layer.len(),
        pre.advanced().1 is Fetch,
    ensures
        pre.advanced().1 == StepModel::Fetch(pre.current()),
        !pre.visited.contains(pre.current()),
        !pre.errors.contains(pre.current()),
        same_domain(pre.root, pre.current()),
        !depth_cutoff(pre.current(), pre.depth),
        pre.advanced().0.awaiting,
        pre.advanced().0.succeeded(html).visited.contains(pre.current()),
        pre.advanced().0.failed().errors.contains(pre.current()),
{
    let url = pre.current();
    lemma_with_new_distinct(pre.visited, url);
    lemma_push_distinct(pre.errors, url);
}

/// Every move keeps the state well-formed, and takes nothing out of the
/// visited set or the error set.
pub proof fn lemma_move_keeps_sets(pre: CrawlModel, post: CrawlModel)
    requires
        pre.wf(),
        moves_to(pre, post),
    ensures
        post.wf(),
        forall|url: Seq<char>| pre.visited.contains(url) ==> post.visited.contains(url),
        forall|url: Seq<char>| pre.errors.contains(url) ==> post.errors.contains(url),
{
    if pre.position < pre.layer.len() {
        let url = pre.current();
        lemma_with_new_distinct(pre.visited, url);
        if !pre.visited.contains(url) {
            lemma_without_absent(pre.visited, url);
        }
        if !pre.errors.contains(url) {
            lemma_push_distinct(pre.errors, url);
        }
    }
}

/// A URL whose request failed is in no state's visited set. It is absent
/// from the report, unless failures are asked for, and then it is in the
/// report exactly once.
pub proof fn lemma_failed_urls_reported_once(state: CrawlModel, url: Seq<char>)
    requires
        state.wf(),
        state.errors.contains(url),
    ensures
        !state.visited.contains(url),
        !state.report(false).contains(url),
        state.report(true).contains(url),
        state.report(true).no_duplicates(),
{
    lemma_merged_holds_all(state.visited, state.errors);
}

/// The crawl comes to an end. Where all URLs that can turn up belong to a
/// finite set, every move leaves strictly less work, in an order that has
/// no infinite descent; so only finitely many moves are possible, cycles
/// among the pages or not. The waiting URLs stay within the set as long as
/// the links of the pages fetched do.
pub proof fn lemma_move_leaves_less_work(
    pre: CrawlModel,
    post: CrawlModel,
    universe: Set<Seq<char>>,
)
    requires
        pre.wf(),
        universe.finite(),
        pre.within(universe),
        moves_to(pre, post),
    ensures
        less_work(post.work_left(universe), pre.work_left(universe)),
        (forall|i: int|
            0 <= i < post.frontier.len() ==> universe.contains(#[trigger] post.frontier[i]))
            ==> post.within(universe),
{
    lemma_move_keeps_sets(pre, post);
    let before = pre.unseen(universe);
    let after = post.unseen(universe);
    vstd::set_lib::lemma_len_subset(before, universe);
    vstd::set_lib::lemma_len_subset(after, before);
    if pre.awaiting {
        let url = pre.current();
        lemma_with_new_distinct(pre.visited, url);
        lemma_push_distinct(pre.errors, url);
        vstd::set_lib::lemma_len_subset(after, before.remove(url));
    }
}

/// A URL at the depth limit is recorded and not expanded: when its turn
/// comes it is passed over, it joins the visited set, and the next layer
/// stays as it was.
pub proof fn lemma_depth_limit_stops_expansion(pre: CrawlModel)
    requires
        pre.wf(),
        pre.position < pre.layer.len(),
        !pre.errors.contains(pre.current()),
        !pre.visited.contains(pre.current()),
        same_domain(pre.root, pre.current()),
        depth_cutoff(pre.current(), pre.depth),
    ensures
        pre.advanced().1 == StepModel::Skipped(pre.current(), SkipReason::DepthLimit),
        pre.advanced().0.visited == pre.visited.push(pre.current()),
        pre.advanced().0.frontier == pre.frontier,
        pre.advanced().0.errors == pre.errors,
        !pre.advanced().0.awaiting,
{
}

/// A crawl is over without a request where the root page has one link and
/// that link sits at the depth limit: the first move opens the layer, the
/// second passes the link over and records it, and the third finds the
/// crawl over, with nothing visited but the link and nothing failed.
pub proof fn lemma_link_at_limit_ends_crawl(
    root: Seq<char>,
    depth: i32,
    root_html: Seq<char>,
    url: Seq<char>,
)
    requires
        links_added(Seq::empty(), root, root_html) == seq![url],
        same_domain(root, url),
        depth_cutoff(url, depth),
    ensures
        ({
            let opened = CrawlModel::seeded(root, depth, root_html).advanced();
            let passed = opened.0.advanced();
            let ended = passed.0.advanced();
            &&& opened.1 == StepModel::NextLayer
            &&& passed.1 == StepModel::Skipped(url, SkipReason::DepthLimit)
            &&& ended.1 == StepModel::Done
            &&& ended.0.visited == seq![url]
            &&& ended.0.errors == Seq::<Seq<char>>::empty()
            &&& !ended.0.awaiting
        }),
{
    let start = CrawlModel::seeded(root, depth, root_html);
    let opened = start.advanced();
    assert(start.frontier.len() == 1);
    assert(opened.0.layer == seq![url]);
    assert(opened.0.current() == url);
    let passed = opened.0.advanced();
    assert(passed.0.visited == seq![url]);
}

} // verus!
