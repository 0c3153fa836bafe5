//! The boundary to the HTML parser: the one trusted parsing call, and the
//! public operations that run the verified pipeline on a page's text.

use vstd::prelude::*;
use vstd::string::StringExecFns;

use crate::dom::{dom_wf, Dom, DomNode, NodeKind, NodeModel};
use crate::extract::{extract_entry, extract_spec};
use crate::resolve::{get_wort_des_tages_link_name_from_document, resolve_spec};
use crate::{Wort, WortModel};

verus! {

/// The node arena that parsing a given text yields. Parsing is a function
/// of the text alone.
pub uninterp spec fn dom_of(html: Seq<char>) -> Seq<NodeModel>;

/// Relies on `select::document::Document::from(&str)`: html5ever parses the
/// text — tolerantly, never failing — into a node arena in document
/// (preorder) order, every node appended after its parent, so parent indices
/// point backwards; the result depends on the text alone.
#[verifier::external_body]
fn parse_html(html: &str) -> (d: Dom)
    ensures
        d@ == dom_of(html@),
        dom_wf(d@),
{
    let doc = select::document::Document::from(html);
    let nodes = doc.nodes.into_iter().map(|raw| DomNode {
        parent: raw.parent,
        kind: match raw.data {
            select::node::Data::Text(t) => NodeKind::Text { text: t.to_string() },
            select::node::Data::Comment(_) => NodeKind::Comment,
            select::node::Data::Element(name, attrs) => NodeKind::Element {
                name: name.local.to_string(),
                attrs: attrs.into_iter().map(|(n, v)| (n.local.to_string(), v.to_string())).collect(),
            },
        },
    }).collect();
    Dom { nodes }
}

/// Parses one entry page and extracts its record.
pub fn get_wort_from_html(html: &str) -> (r: Result<Wort, String>)
    ensures
        r matches Ok(w) ==> extract_spec(dom_of(html@)) == Ok::<WortModel, Seq<char>>(w@),
        r matches Err(e) ==> extract_spec(dom_of(html@)) == Err::<WortModel, Seq<char>>(e@),
{
    let d = parse_html(html);
    extract_entry(&d)
}

/// Parses the landing page and resolves the slug of the word of the day.
pub fn get_wort_des_tages_link_name_from_html(html: &str) -> (r: Result<String, String>)
    ensures
        r matches Ok(s) ==> resolve_spec(dom_of(html@)) == Ok::<Seq<char>, Seq<char>>(s@),
        r matches Err(e) ==> resolve_spec(dom_of(html@)) == Err::<Seq<char>, Seq<char>>(e@),
{
    let d = parse_html(html);
    get_wort_des_tages_link_name_from_document(&d)
}

/// The entry-page URL for a slug, built exactly as the site expects it.
pub fn wort_url(slug: &str) -> (u: String)
    ensures
        u@ == "https://www.duden.de/rechtschreibung/"@ + slug@,
{
    let mut u = "https://www.duden.de/rechtschreibung/".to_owned();
    u.append(slug);
    u
}

} // verus!
