//! Which URLs are in scope: those on the root's host, short of the depth
//! limit.
//!
//! The depth of a URL is the number of non-empty segments of its path. The
//! limit cuts off at exactly that depth: a URL whose depth equals the limit
//! is recorded but not expanded, one below the limit is expanded, and one
//! above it is expanded as well, should it ever be met. When every layer of
//! a crawl is filtered, URLs above the limit are reached only through links
//! that skip the limit depth.
//!
//! A URL whose path is not made of segments, such as a `mailto:` address,
//! has no depth, and no limit cuts it off. Nor does a negative limit cut
//! anything off, since no depth is negative.

use vstd::prelude::*;
use crate::weburl::{parse_url, parts_model, url_parts, UrlParts, UrlPartsModel};

verus! {

/// Whether two parse results are both URLs, with the same host (or both
/// with none).
pub open spec fn same_host(root: Option<UrlPartsModel>, candidate: Option<UrlPartsModel>) -> bool {
    root is Some && candidate is Some && root->0.host == candidate->0.host
}

/// Whether `candidate` is on the host of `root`.
pub open spec fn same_domain(root: Seq<char>, candidate: Seq<char>) -> bool {
    same_host(url_parts(root), url_parts(candidate))
}

/// The number of non-empty segments among `segments`.
pub open spec fn nonempty_count(segments: Seq<Seq<char>>) -> nat
    decreases segments.len(),
{
    if segments.len() == 0 {
        0
    } else {
        let rest = nonempty_count(segments.drop_last());
        if segments.last().len() > 0 {
            rest + 1
        } else {
            rest
        }
    }
}

/// The depth of a URL: the number of its non-empty path segments, and
/// none for a URL without a segmented path.
pub open spec fn path_depth(parts: UrlPartsModel) -> Option<nat> {
    match parts.segments {
        Some(segments) => Some(nonempty_count(segments)),
        None => None,
    }
}

/// Whether a parse result is a URL at exactly the depth `limit`, with a
/// limit of 0 standing for none.
pub open spec fn at_depth(parts: Option<UrlPartsModel>, limit: i32) -> bool {
    limit != 0 && match parts {
        Some(url) => match path_depth(url) {
            Some(depth) => depth == limit,
            None => false,
        },
        None => false,
    }
}

/// Whether `url` is cut off by the depth limit. A text that is no URL
/// never is.
pub open spec fn depth_cutoff(url: Seq<char>, limit: i32) -> bool {
    at_depth(url_parts(url), limit)
}

fn same_text(a: &Option<String>, b: &Option<String>) -> (r: bool)
    ensures
        r == (match (*a, *b) {
            (Some(x), Some(y)) => x@ == y@,
            (None, None) => true,
            _ => false,
        }),
{
    match (a, b) {
        (Some(x), Some(y)) => *x == *y,
        (None, None) => true,
        _ => false,
    }
}

/// Compares the hosts of two parse results.
pub fn hosts_match(root: &Option<UrlParts>, candidate: &Option<UrlParts>) -> (r: bool)
    ensures
        r == same_host(parts_model(*root), parts_model(*candidate)),
{
    match (root, candidate) {
        (Some(a), Some(b)) => same_text(&a.host, &b.host),
        _ => false,
    }
}

/// Checks if a candidate URL has the same host as the root URL.
pub fn is_same_domain(root: &str, candidate: &str) -> (r: bool)
    ensures
        r == same_domain(root@, candidate@),
{
    let root_parts = parse_url(root);
    let candidate_parts = parse_url(candidate);
    hosts_match(&root_parts, &candidate_parts)
}

/// Counts the non-empty segments.
pub fn count_segments(segments: &Vec<String>) -> (n: usize)
    ensures
        n == nonempty_count(segments.deep_view()),
{
    let ghost all: Seq<Seq<char>> = segments.deep_view();
    let mut n: usize = 0;
    let mut i: usize = 0;
    while i < segments.len()
        invariant
            i <= segments.len(),
            all == segments.deep_view(),
            n == nonempty_count(all.take(i as int)),
            n <= i,
        decreases segments.len() - i,
    {
        proof {
            let next = all.take(i + 1);
            assert(next.drop_last() == all.take(i as int));
        }
        if !segments[i].as_str().is_empty() {
            n = n + 1;
        }
        i = i + 1;
    }
    proof {
        assert(all.take(i as int) == all);
    }
    n
}

/// Compares the depth of a parse result with the limit.
pub fn depth_matches(parts: &Option<UrlParts>, limit: i32) -> (r: bool)
    ensures
        r == at_depth(parts_model(*parts), limit),
{
    if limit == 0 {
        return false;
    }
    match parts {
        Some(p) => match &p.segments {
            Some(segments) => limit > 0 && count_segments(segments) == limit as usize,
            None => false,
        },
        None => false,
    }
}

/// Checks whether a URL sits at exactly the depth at which the crawl stops
/// expanding. With a limit of 0 nothing is cut off, and `url` is not even
/// parsed.
pub fn depth_control(url: &str, depth: i32) -> (r: bool)
    ensures
        r == depth_cutoff(url@, depth),
        depth == 0 ==> !r,
{
    if depth == 0 {
        return false;
    }
    let parts = parse_url(url);
    depth_matches(&parts, depth)
}

/// A root that parses is on its own host.
pub proof fn lemma_same_domain_reflexive(root: Seq<char>)
    requires
        url_parts(root) is Some,
    ensures
        same_domain(root, root),
{
}

/// Without a depth limit no URL is cut off.
pub proof fn lemma_no_limit_no_cutoff(url: Seq<char>)
    ensures
        !depth_cutoff(url, 0),
{
}

/// The cutoff is exact: with a limit other than 0, a URL with a depth is
/// cut off if and only if that depth equals the limit; neither a shallower
/// nor a deeper URL is.
pub proof fn lemma_cutoff_is_exact(url: Seq<char>, limit: i32)
    requires
        limit != 0,
        url_parts(url) is Some,
        path_depth(url_parts(url)->0) is Some,
    ensures
        depth_cutoff(url, limit) <==> path_depth(url_parts(url)->0)->0 == limit,
        path_depth(url_parts(url)->0)->0 == limit - 1 ==> !depth_cutoff(url, limit),
        path_depth(url_parts(url)->0)->0 == limit + 1 ==> !depth_cutoff(url, limit),
{
}

/// A negative limit cuts nothing off, and no limit cuts off a text that is
/// no URL or a URL without a depth.
pub proof fn lemma_cutoff_needs_a_depth(url: Seq<char>, limit: i32)
    ensures
        limit < 0 ==> !depth_cutoff(url, limit),
        url_parts(url) is None ==> !depth_cutoff(url, limit),
        url_parts(url) is Some && path_depth(url_parts(url)->0) is None ==> !depth_cutoff(
            url,
            limit,
        ),
{
}

} // verus!
