//! Turning the target of a link into an absolute URL.

use vstd::prelude::*;
use vstd::string::*;
use crate::text::{has_prefix, starts_with};
use crate::weburl::{join_url, joined_model, url_join};

verus! {

/// Whether `href` already names a scheme that is crawled.
pub open spec fn is_absolute(href: Seq<char>) -> bool {
    has_prefix(href, "https://"@) || has_prefix(href, "http://"@)
}

/// `s` without its last character, where that is a slash.
pub open spec fn without_trailing_slash(s: Seq<char>) -> Seq<char> {
    if s.len() > 0 && s.last() == '/' {
        s.drop_last()
    } else {
        s
    }
}

/// `s` without its first character, where that is a slash.
pub open spec fn without_leading_slash(s: Seq<char>) -> Seq<char> {
    if s.len() > 0 && s[0] == '/' {
        s.skip(1)
    } else {
        s
    }
}

/// `base` and `href` put together with exactly one slash added between
/// them, after at most one slash is taken from the end of `base` and one
/// from the start of `href`.
pub open spec fn concatenated(base: Seq<char>, href: Seq<char>) -> Seq<char> {
    without_trailing_slash(base) + "/"@ + without_leading_slash(href)
}

/// The joined URL where the join succeeded, the concatenation otherwise.
pub open spec fn joined_or_concatenated(
    base: Seq<char>,
    href: Seq<char>,
    joined: Option<Seq<char>>,
) -> Seq<char> {
    match joined {
        Some(url) => url,
        None => concatenated(base, href),
    }
}

/// The absolute URL that the link target `href`, found on the page `base`,
/// stands for.
pub open spec fn resolved(base: Seq<char>, href: Seq<char>) -> Seq<char> {
    if is_absolute(href) {
        href
    } else {
        joined_or_concatenated(base, href, url_join(base, href))
    }
}

/// Tests whether `href` begins with `https://` or `http://`.
pub fn is_absolute_url(href: &str) -> (r: bool)
    ensures
        r == is_absolute(href@),
{
    starts_with(href, "https://") || starts_with(href, "http://")
}

/// Puts `base` and `href` together without looking at their structure.
pub fn concat_url(base: &str, href: &str) -> (r: String)
    ensures
        r@ == concatenated(base@, href@),
{
    let base_len: usize = base.unicode_len();
    let head: &str = if base_len > 0 && base.get_char(base_len - 1) == '/' {
        base.substring_char(0, base_len - 1)
    } else {
        base
    };
    let href_len: usize = href.unicode_len();
    let tail: &str = if href_len > 0 && href.get_char(0) == '/' {
        href.substring_char(1, href_len)
    } else {
        href
    };
    let mut r = String::from_str(head);
    r.append("/");
    r.append(tail);
    r
}

/// Completes a resolution of which the join has been attempted: takes
/// the joined URL, or falls back on [`concat_url`] where there is none.
pub fn finish_join(base: &str, href: &str, joined: Option<String>) -> (r: String)
    ensures
        r@ == joined_or_concatenated(base@, href@, joined_model(joined)),
{
    match joined {
        Some(url) => url,
        None => concat_url(base, href),
    }
}

/// Resolves the link target `sub`, found on the page `root`, to an
/// absolute URL.
///
/// A target that is absolute already is returned as it is. Any other is
/// joined to `root`; where that fails, the two are concatenated. No input
/// is refused.
pub fn get_url(root: &str, sub: &str) -> (r: String)
    ensures
        r@ == resolved(root@, sub@),
        is_absolute(sub@) ==> r@ == sub@,
{
    if is_absolute_url(sub) {
        String::from_str(sub)
    } else {
        finish_join(root, sub, join_url(root, sub))
    }
}

} // verus!
