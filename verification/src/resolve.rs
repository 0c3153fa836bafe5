//! The word-of-day resolver: given the landing-page document it finds the
//! first anchor of class `scene__title-link`, reads its `href`, requires the
//! `/rechtschreibung/` prefix, and returns the remaining URL slug.

use vstd::prelude::*;

use crate::dom::{
    dom_wf, has_class, is_elem_named, node_attr, node_attr_value, Dom, NodeModel,
};
use crate::text::{chars_from, chars_of_str, has_prefix, string_from_chars};

verus! {

pub open spec fn err_anchor_missing() -> Seq<char> {
    "Scraping error while searching for Wort-des-Tages Wort-Link: \"a\" element not found"@
}

pub open spec fn err_href_missing() -> Seq<char> {
    "Scraping error while searching for Wort-des-Tages Wort-Link: \"a\" element does not have \"href\" attribute"@
}

pub open spec fn err_bad_scheme() -> Seq<char> {
    "Scraping error while searching for Wort-des-Tages Wort-Link: link does not have correct scheme \"/rechtschreibung/{wort}\""@
}

/// The URL prefix an entry link must carry.
pub open spec fn slug_prefix() -> Seq<char> {
    "/rechtschreibung/"@
}

/// Whether `n` is the anchor that links to the word of the day.
pub open spec fn is_wdt_anchor(n: NodeModel) -> bool {
    is_elem_named(n, "a"@) && has_class(n, "scene__title-link"@)
}

/// The first word-of-day anchor at position `k` or later.
pub open spec fn first_anchor_from(d: Seq<NodeModel>, k: int) -> Option<int>
    decreases d.len() - k,
{
    if k < 0 || k >= d.len() {
        None
    } else if is_wdt_anchor(d[k]) {
        Some(k)
    } else {
        first_anchor_from(d, k + 1)
    }
}

/// The URL slug of the word of the day: the `href` of the first anchor of
/// class `scene__title-link`, with the `/rechtschreibung/` prefix removed.
pub open spec fn resolve_spec(d: Seq<NodeModel>) -> Result<Seq<char>, Seq<char>> {
    match first_anchor_from(d, 0) {
        None => Err(err_anchor_missing()),
        Some(a) => match node_attr(d[a], "href"@) {
            None => Err(err_href_missing()),
            Some(h) => if slug_prefix().is_prefix_of(h) {
                Ok(h.skip(slug_prefix().len() as int))
            } else {
                Err(err_bad_scheme())
            },
        },
    }
}

fn is_wdt_anchor_node(n: &crate::dom::DomNode) -> (r: bool)
    ensures
        r == is_wdt_anchor(n@),
{
    let a = chars_of_str("a");
    if !crate::dom::elem_named(n, &a) {
        return false;
    }
    let class = chars_of_str("scene__title-link");
    crate::dom::node_has_class(n, &class)
}

#[verifier::loop_isolation(false)]
fn find_wdt_anchor(d: &Dom) -> (r: Option<usize>)
    ensures
        match r {
            Some(a) => (a as int) < d@.len() && first_anchor_from(d@, 0) == Some(a as int),
            None => first_anchor_from(d@, 0) is None,
        },
{
    let mut k: usize = 0;
    while k < d.nodes.len()
        invariant
            k <= d@.len(),
            d@.len() == d.nodes@.len(),
            first_anchor_from(d@, 0) == first_anchor_from(d@, k as int),
        decreases d@.len() - k,
    {
        proof {
            assert(d@[k as int] == d.nodes@[k as int]@);
        }
        if is_wdt_anchor_node(&d.nodes[k]) {
            return Some(k);
        }
        k += 1;
    }
    None
}

/// The slug of the word of the day, read from the landing-page document.
pub fn get_wort_des_tages_link_name_from_document(d: &Dom) -> (r: Result<String, String>)
    requires
        dom_wf(d@),
    ensures
        r matches Ok(s) ==> resolve_spec(d@) == Ok::<Seq<char>, Seq<char>>(s@),
        r matches Err(e) ==> resolve_spec(d@) == Err::<Seq<char>, Seq<char>>(e@),
{
    match find_wdt_anchor(d) {
        None => Err(
            "Scraping error while searching for Wort-des-Tages Wort-Link: \"a\" element not found".to_owned(),
        ),
        Some(a) => {
            proof {
                assert(d@[a as int] == d.nodes@[a as int]@);
            }
            let href = chars_of_str("href");
            match node_attr_value(&d.nodes[a], &href) {
                None => Err(
                    "Scraping error while searching for Wort-des-Tages Wort-Link: \"a\" element does not have \"href\" attribute".to_owned(),
                ),
                Some(h) => {
                    let prefix = chars_of_str("/rechtschreibung/");
                    if has_prefix(&h, &prefix) {
                        let rest = chars_from(&h, prefix.len());
                        Ok(string_from_chars(&rest))
                    } else {
                        Err(
                            "Scraping error while searching for Wort-des-Tages Wort-Link: link does not have correct scheme \"/rechtschreibung/{wort}\"".to_owned(),
                        )
                    }
                },
            }
        },
    }
}

} // verus!
