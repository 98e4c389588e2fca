//! Collecting the links of a page.
//!
//! The page is parsed leniently, as a fragment, by the `scraper` crate. What
//! comes back is the `href` attribute of each anchor, in the order in which
//! the selection yields them. From there on the work is this library's:
//! each target present is resolved against the page's own URL and appended
//! to the list of results, unless the list holds it already.
//!
//! A page of more than [`MAX_PAGE_CHARS`] characters is not parsed, and
//! yields no links.

use vstd::prelude::*;
use vstd::string::*;
use scraper::{Html, Selector};
use crate::resolver::{get_url, resolved};

verus! {

/// The longest page, in characters, that is handed to the parser.
///
/// The parser keeps text in buffers whose length is a 32-bit number and
/// whose capacity grows in powers of two, and it stops with a panic where
/// one would pass that. A character takes up to four bytes there, so that
/// a page within this limit stays below half of what a buffer can hold.
pub const MAX_PAGE_CHARS: usize = 0x1000_0000;

/// The longest selector, and the longest attribute name, in characters,
/// that is handed to the parser.
pub const MAX_QUERY_CHARS: usize = 64;

/// The value of `attribute` on each element of the fragment `html` that
/// `selector` matches, in the order in which the selection yields them,
/// with `None` for an element without the attribute; `None` as a whole
/// where `selector` is no selector.
pub uninterp spec fn selected_attributes(
    html: Seq<char>,
    selector: Seq<char>,
    attribute: Seq<char>,
) -> Option<Seq<Option<Seq<char>>>>;

/// The mathematical value of a list of optional strings.
pub open spec fn attributes_model(attrs: Seq<Option<String>>) -> Seq<Option<Seq<char>>> {
    Seq::new(
        attrs.len(),
        |i: int|
            match attrs[i] {
                Some(value) => Some(value@),
                None => None,
            },
    )
}

/// The mathematical value of what [`select_attribute`] returns.
pub open spec fn selection_model(r: Option<Vec<Option<String>>>) -> Option<
    Seq<Option<Seq<char>>>,
> {
    match r {
        Some(attrs) => Some(attributes_model(attrs@)),
        None => None,
    }
}

/// The link targets of the page `html`: the `href` of each `a` element,
/// and none at all for a page that is too long to be parsed.
pub open spec fn anchor_targets(html: Seq<char>) -> Option<Seq<Option<Seq<char>>>> {
    if html.len() <= MAX_PAGE_CHARS {
        selected_attributes(html, "a"@, "href"@)
    } else {
        None
    }
}

/// `acc` with `url` at the end, unless `acc` holds it already.
pub open spec fn with_new(acc: Seq<Seq<char>>, url: Seq<char>) -> Seq<Seq<char>> {
    if acc.contains(url) {
        acc
    } else {
        acc.push(url)
    }
}

/// `acc` after the link targets `targets`, found on the page `base`, are
/// taken in one by one: a missing target adds nothing, a target present
/// adds its resolved URL where that is new.
pub open spec fn gathered(
    acc: Seq<Seq<char>>,
    base: Seq<char>,
    targets: Seq<Option<Seq<char>>>,
) -> Seq<Seq<char>>
    decreases targets.len(),
{
    if targets.len() == 0 {
        acc
    } else {
        let before = gathered(acc, base, targets.drop_last());
        match targets.last() {
            Some(href) => with_new(before, resolved(base, href)),
            None => before,
        }
    }
}

/// `acc` after the links of the page `html` at `base` are taken in.
pub open spec fn links_added(acc: Seq<Seq<char>>, base: Seq<char>, html: Seq<char>) -> Seq<
    Seq<char>,
> {
    match anchor_targets(html) {
        Some(targets) => gathered(acc, base, targets),
        None => acc,
    }
}

/// Parses `html` with `scraper::Html::parse_fragment` and `selector` with
/// `scraper::Selector::parse`, walks the matches of `Html::select` and reads
/// `attribute` from each with `Element::attr`.
///
/// Trusted: the contract only names the outcome
/// `selected_attributes(html, selector, attribute)`. It claims that the
/// outcome depends on the three texts alone, and nothing about what is
/// selected. The three limits keep out the texts on which the parser may
/// panic: those that overflow its buffers.
#[verifier::external_body]
pub(crate) fn select_attribute(html: &str, selector: &str, attribute: &str) -> (r: Option<
    Vec<Option<String>>,
>)
    requires
        html@.len() <= MAX_PAGE_CHARS,
        selector@.len() <= MAX_QUERY_CHARS,
        attribute@.len() <= MAX_QUERY_CHARS,
    ensures
        selection_model(r) == selected_attributes(html@, selector@, attribute@),
{
    match Selector::parse(selector) {
        Ok(parsed) => {
            let fragment = Html::parse_fragment(html);
            let matches = fragment.select(&parsed);
            Some(matches.map(|element| element.value().attr(attribute).map(String::from)).collect())
        },
        Err(_) => None,
    }
}

/// Tests whether `list` holds `url`.
pub fn holds(list: &Vec<String>, url: &String) -> (r: bool)
    ensures
        r == list.deep_view().contains(url@),
{
    let ghost texts: Seq<Seq<char>> = list.deep_view();
    let mut i: usize = 0;
    while i < list.len()
        invariant
            i <= list.len(),
            texts == list.deep_view(),
            forall|k: int| 0 <= k < i ==> texts[k] != url@,
        decreases list.len() - i,
    {
        assert(texts[i as int] == list@[i as int]@);
        if list[i] == *url {
            return true;
        }
        i = i + 1;
    }
    false
}

/// Appends `url` to `list`, unless `list` holds it already.
pub fn push_new(list: &mut Vec<String>, url: String)
    ensures
        final(list).deep_view() == with_new(old(list).deep_view(), url@),
{
    if !holds(list, &url) {
        list.push(url);
        assert(list.deep_view() == old(list).deep_view().push(url@));
    }
}

/// Takes the link targets `targets`, found on the page `base`, into
/// `results`.
pub fn collect_links(targets: &Vec<Option<String>>, base: &str, results: &mut Vec<String>)
    ensures
        final(results).deep_view() == gathered(
            old(results).deep_view(),
            base@,
            attributes_model(targets@),
        ),
{
    let ghost all: Seq<Option<Seq<char>>> = attributes_model(targets@);
    let mut i: usize = 0;
    while i < targets.len()
        invariant
            i <= targets.len(),
            all == attributes_model(targets@),
            results.deep_view() == gathered(old(results).deep_view(), base@, all.take(i as int)),
        decreases targets.len() - i,
    {
        proof {
            let next = all.take(i + 1);
            assert(next.drop_last() == all.take(i as int));
            assert(next.last() == all[i as int]);
        }
        match &targets[i] {
            Some(href) => {
                let absolute = get_url(base, href.as_str());
                push_new(results, absolute);
            },
            None => {},
        }
        i = i + 1;
    }
    proof {
        assert(all.take(i as int) == all);
    }
}

/// Extracts the targets of all anchors of the page `html`, resolves them
/// against the page's address `url` and appends those that `results` does
/// not hold yet, in the order in which the anchors are found.
///
/// Markup that cannot be made sense of yields fewer links, never a failure;
/// a page of more than [`MAX_PAGE_CHARS`] characters yields none.
pub fn get_links(html: &str, url: &str, results: &mut Vec<String>)
    ensures
        final(results).deep_view() == links_added(old(results).deep_view(), url@, html@),
        html@.len() > MAX_PAGE_CHARS ==> final(results).deep_view() == old(results).deep_view(),
{
    if html.unicode_len() > MAX_PAGE_CHARS {
        return;
    }
    proof {
        reveal_strlit("a");
        reveal_strlit("href");
    }
    match select_attribute(html, "a", "href") {
        Some(targets) => collect_links(&targets, url, results),
        None => {},
    }
}

/// The targets among `targets` that are present, in their order.
pub open spec fn present_targets(targets: Seq<Option<Seq<char>>>) -> Seq<Option<Seq<char>>>
    decreases targets.len(),
{
    if targets.len() == 0 {
        targets
    } else {
        let before = present_targets(targets.drop_last());
        if targets.last() is Some {
            before.push(targets.last())
        } else {
            before
        }
    }
}

/// Whether `url` is what some target present in `targets` resolves to.
pub open spec fn is_link_of(url: Seq<char>, base: Seq<char>, targets: Seq<Option<Seq<char>>>) -> bool {
    exists|i: int|
        0 <= i < targets.len() && (#[trigger] targets[i]) is Some && url == resolved(
            base,
            targets[i]->0,
        )
}

/// An anchor without a target leaves no trace: the links gathered from a
/// list of anchors are those gathered from the anchors that have a target.
pub proof fn lemma_missing_targets_add_nothing(
    acc: Seq<Seq<char>>,
    base: Seq<char>,
    targets: Seq<Option<Seq<char>>>,
)
    ensures
        gathered(acc, base, targets) == gathered(acc, base, present_targets(targets)),
    decreases targets.len(),
{
    if targets.len() > 0 {
        let front = targets.drop_last();
        lemma_missing_targets_add_nothing(acc, base, front);
        if targets.last() is Some {
            let kept = present_targets(front).push(targets.last());
            assert(kept.drop_last() == present_targets(front));
            assert(kept.last() == targets.last());
        }
    }
}

/// Every URL in the list after gathering was in it before, or is what a
/// target that is present resolves to; and the list still holds, in the
/// same places, all that it held before.
pub proof fn lemma_gathered_origin(
    acc: Seq<Seq<char>>,
    base: Seq<char>,
    targets: Seq<Option<Seq<char>>>,
)
    ensures
        acc.len() <= gathered(acc, base, targets).len(),
        gathered(acc, base, targets).take(acc.len() as int) == acc,
        forall|url: Seq<char>| #[trigger]
            gathered(acc, base, targets).contains(url) ==> acc.contains(url) || is_link_of(
                url,
                base,
                targets,
            ),
    decreases targets.len(),
{
    if targets.len() > 0 {
        let front = targets.drop_last();
        let before = gathered(acc, base, front);
        let after = gathered(acc, base, targets);
        lemma_gathered_origin(acc, base, front);
        assert(after.take(acc.len() as int) == before.take(acc.len() as int));
        assert forall|url: Seq<char>| #[trigger] after.contains(url) implies acc.contains(url)
            || is_link_of(url, base, targets) by {
            if before.contains(url) {
                if !acc.contains(url) {
                    let i = choose|i: int|
                        0 <= i < front.len() && (#[trigger] front[i]) is Some && url == resolved(
                            base,
                            front[i]->0,
                        );
                    assert(targets[i] == front[i]);
                }
            } else {
                let last = targets.len() - 1;
                assert(targets[last] is Some);
                assert(url == resolved(base, targets[last]->0));
            }
        }
    }
}

/// After gathering, the list holds all that it held before and what each
/// target present resolves to.
pub proof fn lemma_gathered_holds_all(
    acc: Seq<Seq<char>>,
    base: Seq<char>,
    targets: Seq<Option<Seq<char>>>,
)
    ensures
        forall|url: Seq<char>|
            acc.contains(url) || is_link_of(url, base, targets) ==> #[trigger] gathered(
                acc,
                base,
                targets,
            ).contains(url),
    decreases targets.len(),
{
    let after = gathered(acc, base, targets);
    if targets.len() > 0 {
        let front = targets.drop_last();
        let before = gathered(acc, base, front);
        lemma_gathered_holds_all(acc, base, front);
        assert forall|url: Seq<char>| before.contains(url) implies after.contains(url) by {
            let k = choose|k: int| 0 <= k < before.len() && before[k] == url;
            assert(after[k] == url);
        }
        assert forall|url: Seq<char>| is_link_of(url, base, targets) implies after.contains(
            url,
        ) by {
            let i = choose|i: int|
                0 <= i < targets.len() && (#[trigger] targets[i]) is Some && url == resolved(
                    base,
                    targets[i]->0,
                );
            if i < front.len() {
                assert(front[i] == targets[i]);
                assert(is_link_of(url, base, front));
            } else {
                if !before.contains(url) {
                    assert(after == before.push(url));
                    assert(after[before.len() as int] == url);
                }
            }
        }
    } else {
        assert forall|url: Seq<char>| is_link_of(url, base, targets) implies after.contains(
            url,
        ) by {}
    }
}

/// Gathering into a list that holds every link already changes nothing.
pub proof fn lemma_gathered_known(
    acc: Seq<Seq<char>>,
    base: Seq<char>,
    targets: Seq<Option<Seq<char>>>,
)
    requires
        forall|url: Seq<char>| is_link_of(url, base, targets) ==> acc.contains(url),
    ensures
        gathered(acc, base, targets) == acc,
    decreases targets.len(),
{
    if targets.len() > 0 {
        let front = targets.drop_last();
        assert forall|url: Seq<char>| is_link_of(url, base, front) implies acc.contains(url) by {
            let i = choose|i: int|
                0 <= i < front.len() && (#[trigger] front[i]) is Some && url == resolved(
                    base,
                    front[i]->0,
                );
            assert(targets[i] == front[i]);
        }
        lemma_gathered_known(acc, base, front);
        if targets.last() is Some {
            let last = targets.len() - 1;
            assert(targets[last] is Some);
            assert(is_link_of(resolved(base, targets[last]->0), base, targets));
        }
    }
}

/// Extraction depends on its input alone: on the same page, address and
/// list it yields the same list, entry for entry.
pub proof fn lemma_extraction_repeatable(
    acc1: Seq<Seq<char>>,
    base1: Seq<char>,
    html1: Seq<char>,
    acc2: Seq<Seq<char>>,
    base2: Seq<char>,
    html2: Seq<char>,
)
    requires
        acc1 == acc2,
        base1 == base2,
        html1 == html2,
    ensures
        links_added(acc1, base1, html1) == links_added(acc2, base2, html2),
{
}

/// Extraction is idempotent: taking in the links of a page a second time
/// leaves the list as the first time left it.
pub proof fn lemma_extraction_idempotent(acc: Seq<Seq<char>>, base: Seq<char>, html: Seq<char>)
    ensures
        links_added(links_added(acc, base, html), base, html) == links_added(acc, base, html),
{
    match anchor_targets(html) {
        Some(targets) => {
            lemma_gathered_holds_all(acc, base, targets);
            lemma_gathered_known(gathered(acc, base, targets), base, targets);
        },
        None => {},
    }
}

/// A list without repetitions has none after extraction either.
pub proof fn lemma_extraction_keeps_distinct(
    acc: Seq<Seq<char>>,
    base: Seq<char>,
    targets: Seq<Option<Seq<char>>>,
)
    requires
        acc.no_duplicates(),
    ensures
        gathered(acc, base, targets).no_duplicates(),
    decreases targets.len(),
{
    if targets.len() > 0 {
        lemma_extraction_keeps_distinct(acc, base, targets.drop_last());
    }
}

} // verus!
