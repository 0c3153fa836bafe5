//! The entry extractor: given the document of one entry page it reads the
//! canonical headword from the `og:title` meta tag, locates the senses
//! container (`div#bedeutung`, falling back to `div#bedeutungen`), reads the
//! sense glosses from the text nodes of the container that stand outside
//! `figcaption`, `header`, `dl` and `.special-note` subtrees, reads one
//! example group per `dl` titled `Beispiel` or `Beispiele`, and aligns the
//! two positionally into a [`Wort`].

use vstd::prelude::*;

use crate::dom::{
    dom_wf, direct_text, has_class, is_desc, is_descendant, is_elem_named, node_attr,
    node_attr_value, node_text, subtree_text, Dom, DomNode, NodeKind, NodeModel,
};
use crate::text::{
    before_delim, chars_eq, chars_of_str, cut_at_delim, split_chars, split_of, string_from_chars,
    trim_chars, trim_of,
};
use crate::{Bedeutung, BedeutungModel, Wort, WortModel};

verus! {

/// The character sequences a vector of strings holds, in order.
pub open spec fn strings_view(v: Seq<String>) -> Seq<Seq<char>> {
    v.map_values(|s: String| s@)
}

/// The character sequences a vector of string groups holds, in order.
pub open spec fn groups_view(v: Seq<Vec<String>>) -> Seq<Seq<Seq<char>>> {
    v.map_values(|g: Vec<String>| strings_view(g@))
}

pub open spec fn err_meta_missing() -> Seq<char> {
    "Scraping error while searching for Wort meta tag: meta tag \"og:title\" not found"@
}

pub open spec fn err_content_missing() -> Seq<char> {
    "Scraping error while searching for Wort attribute on meta tag: meta tag does not have attribute \"content\""@
}

pub open spec fn err_container_missing() -> Seq<char> {
    "Scraping error while searching for bedeutungs node: \"div\" element with id \"bedeutung(en)\" not found"@
}

/// Whether `n` is the meta element carrying the canonical headword.
pub open spec fn is_og_meta(n: NodeModel) -> bool {
    is_elem_named(n, "meta"@) && node_attr(n, "property"@) == Some("og:title"@)
}

/// The first node at position `k` or later that carries the headword.
pub open spec fn first_og_meta_from(d: Seq<NodeModel>, k: int) -> Option<int>
    decreases d.len() - k,
{
    if k < 0 || k >= d.len() {
        None
    } else if is_og_meta(d[k]) {
        Some(k)
    } else {
        first_og_meta_from(d, k + 1)
    }
}

/// Whether `n` is a `div` whose id equals `id`.
pub open spec fn is_div_with_id(n: NodeModel, id: Seq<char>) -> bool {
    is_elem_named(n, "div"@) && node_attr(n, "id"@) == Some(id)
}

/// The first `div` at position `k` or later whose id equals `id`.
pub open spec fn first_div_id_from(d: Seq<NodeModel>, id: Seq<char>, k: int) -> Option<int>
    decreases d.len() - k,
{
    if k < 0 || k >= d.len() {
        None
    } else if is_div_with_id(d[k], id) {
        Some(k)
    } else {
        first_div_id_from(d, id, k + 1)
    }
}

/// The headword of the document: the `content` of the `og:title` meta tag,
/// cut at the first `" |"`.
pub open spec fn headword_spec(d: Seq<NodeModel>) -> Result<Seq<char>, Seq<char>> {
    match first_og_meta_from(d, 0) {
        None => Err(err_meta_missing()),
        Some(m) => match node_attr(d[m], "content"@) {
            None => Err(err_content_missing()),
            Some(v) => Ok(before_delim(v)),
        },
    }
}

/// The senses container: the first `div#bedeutung`, else the first
/// `div#bedeutungen`, else an error.
pub open spec fn container_spec(d: Seq<NodeModel>) -> Result<int, Seq<char>> {
    match first_div_id_from(d, "bedeutung"@, 0) {
        Some(c) => Ok(c),
        None => match first_div_id_from(d, "bedeutungen"@, 0) {
            Some(c) => Ok(c),
            None => Err(err_container_missing()),
        },
    }
}

/// Whether node `j` is cut out of the gloss text: it is, or stands under, a
/// `figcaption`, a `header`, a `dl`, or an element of class `special-note`.
pub open spec fn bad_node(n: NodeModel) -> bool {
    ||| is_elem_named(n, "figcaption"@)
    ||| is_elem_named(n, "header"@)
    ||| is_elem_named(n, "dl"@)
    ||| has_class(n, "special-note"@)
}

pub open spec fn excluded(d: Seq<NodeModel>, j: int) -> bool
    decreases j,
{
    0 <= j < d.len() && (bad_node(d[j]) || match d[j].parent {
        Some(p) => (p as int) < j && excluded(d, p as int),
        None => false,
    })
}

/// The direct text of the nodes under container `c` that contribute to the
/// glosses, read over the first `k` nodes: one fragment per relevant node,
/// elements and comments contributing an empty fragment.
pub open spec fn fragments_upto(d: Seq<NodeModel>, c: int, k: int) -> Seq<Seq<char>>
    decreases k,
{
    if k <= 0 {
        Seq::empty()
    } else if is_desc(d, c, k - 1) && !excluded(d, k - 1) {
        fragments_upto(d, c, k - 1).push(direct_text(d[k - 1]))
    } else {
        fragments_upto(d, c, k - 1)
    }
}

/// The gloss fragments joined with single spaces.
pub open spec fn join_sp(l: Seq<Seq<char>>) -> Seq<char>
    decreases l.len(),
{
    if l.len() == 0 {
        Seq::empty()
    } else if l.len() == 1 {
        l[0]
    } else {
        join_sp(l.drop_last()) + seq![' '] + l.last()
    }
}

/// The raw gloss text of container `c`: all relevant fragments, joined with
/// single spaces.
pub open spec fn gloss_source(d: Seq<NodeModel>, c: int) -> Seq<char> {
    join_sp(fragments_upto(d, c, d.len() as int))
}

/// The glosses among the first `k` line pieces: each piece trimmed, pieces
/// empty after trimming dropped.
pub open spec fn glosses_from(pieces: Seq<Seq<char>>, k: int) -> Seq<Seq<char>>
    decreases k,
{
    if k <= 0 {
        Seq::empty()
    } else if trim_of(pieces[k - 1]).len() > 0 {
        glosses_from(pieces, k - 1).push(trim_of(pieces[k - 1]))
    } else {
        glosses_from(pieces, k - 1)
    }
}

/// The sense glosses of container `c`: its gloss text split on newlines,
/// each line trimmed, empty lines dropped.
pub open spec fn senses_of(d: Seq<NodeModel>, c: int) -> Seq<Seq<char>> {
    let pieces = split_of(gloss_source(d, c), false);
    glosses_from(pieces, pieces.len() as int)
}

/// Whether node `m` is a `dt` that is a direct child of node `dl`.
pub open spec fn is_dt_child(d: Seq<NodeModel>, dl: int, m: int) -> bool {
    &&& 0 <= m < d.len()
    &&& is_elem_named(d[m], "dt"@)
    &&& match d[m].parent {
        Some(p) => (p as int) == dl,
        None => false,
    }
}

/// The first direct `dt` child of node `dl` at position `m` or later.
pub open spec fn first_dt_child_from(d: Seq<NodeModel>, dl: int, m: int) -> Option<int>
    decreases d.len() - m,
{
    if m < 0 || m >= d.len() {
        None
    } else if is_dt_child(d, dl, m) {
        Some(m)
    } else {
        first_dt_child_from(d, dl, m + 1)
    }
}

/// The concatenated descendant texts of the `li` descendants of node `dl`,
/// read over the first `k` nodes.
pub open spec fn li_texts_upto(d: Seq<NodeModel>, dl: int, k: int) -> Seq<Seq<char>>
    decreases k,
{
    if k <= 0 {
        Seq::empty()
    } else if is_desc(d, dl, k - 1) && is_elem_named(d[k - 1], "li"@) {
        li_texts_upto(d, dl, k - 1).push(node_text(d, k - 1))
    } else {
        li_texts_upto(d, dl, k - 1)
    }
}

pub open spec fn li_texts(d: Seq<NodeModel>, dl: int) -> Seq<Seq<char>> {
    li_texts_upto(d, dl, d.len() as int)
}

/// Whether node `j` is an example list under container `c`: a `dl` whose
/// first direct `dt` child is titled exactly `Beispiel` or `Beispiele`.
pub open spec fn beispiel_dl(d: Seq<NodeModel>, c: int, j: int) -> bool {
    &&& 0 <= j < d.len()
    &&& is_desc(d, c, j)
    &&& is_elem_named(d[j], "dl"@)
    &&& match first_dt_child_from(d, j, 0) {
        Some(m) => node_text(d, m) == "Beispiel"@ || node_text(d, m) == "Beispiele"@,
        None => false,
    }
}

/// The example groups among the first `k` nodes: the `li` texts of each
/// example list under `c`, in document order.
pub open spec fn groups_upto(d: Seq<NodeModel>, c: int, k: int) -> Seq<Seq<Seq<char>>>
    decreases k,
{
    if k <= 0 {
        Seq::empty()
    } else if beispiel_dl(d, c, k - 1) {
        groups_upto(d, c, k - 1).push(li_texts(d, k - 1))
    } else {
        groups_upto(d, c, k - 1)
    }
}

pub open spec fn example_groups(d: Seq<NodeModel>, c: int) -> Seq<Seq<Seq<char>>> {
    groups_upto(d, c, d.len() as int)
}

/// Senses zipped positionally with example groups: group `i` for sense `i`
/// where present, the empty group otherwise; extra groups are discarded.
pub open spec fn aligned(glosses: Seq<Seq<char>>, groups: Seq<Seq<Seq<char>>>) -> Seq<
    BedeutungModel,
> {
    Seq::new(
        glosses.len(),
        |i: int|
            BedeutungModel {
                bedeutung: glosses[i],
                beispiele: if i < groups.len() {
                    groups[i]
                } else {
                    Seq::empty()
                },
            },
    )
}

/// The whole extraction: headword, then senses container, then senses and
/// example groups aligned into the final record.
pub open spec fn extract_spec(d: Seq<NodeModel>) -> Result<WortModel, Seq<char>> {
    match headword_spec(d) {
        Err(e) => Err(e),
        Ok(hw) => match container_spec(d) {
            Err(e) => Err(e),
            Ok(c) => Ok(
                WortModel {
                    wort: hw,
                    bedeutungen: aligned(senses_of(d, c), example_groups(d, c)),
                },
            ),
        },
    }
}

fn is_og_meta_node(n: &DomNode) -> (r: bool)
    ensures
        r == is_og_meta(n@),
{
    let meta = chars_of_str("meta");
    if !crate::dom::elem_named(n, &meta) {
        return false;
    }
    let prop = chars_of_str("property");
    match node_attr_value(n, &prop) {
        None => false,
        Some(v) => {
            let og = chars_of_str("og:title");
            chars_eq(&v, &og)
        },
    }
}

fn is_div_with_id_node(n: &DomNode, id: &Vec<char>) -> (r: bool)
    ensures
        r == is_div_with_id(n@, id@),
{
    let div = chars_of_str("div");
    if !crate::dom::elem_named(n, &div) {
        return false;
    }
    let idn = chars_of_str("id");
    match node_attr_value(n, &idn) {
        None => false,
        Some(v) => chars_eq(&v, id),
    }
}

#[verifier::loop_isolation(false)]
fn find_og_meta(d: &Dom) -> (r: Option<usize>)
    ensures
        match r {
            Some(m) => (m as int) < d@.len() && first_og_meta_from(d@, 0) == Some(m as int),
            None => first_og_meta_from(d@, 0) is None,
        },
{
    let mut k: usize = 0;
    while k < d.nodes.len()
        invariant
            k <= d@.len(),
            d@.len() == d.nodes@.len(),
            first_og_meta_from(d@, 0) == first_og_meta_from(d@, k as int),
        decreases d@.len() - k,
    {
        proof {
            assert(d@[k as int] == d.nodes@[k as int]@);
        }
        if is_og_meta_node(&d.nodes[k]) {
            return Some(k);
        }
        k += 1;
    }
    None
}

#[verifier::loop_isolation(false)]
fn find_div_with_id(d: &Dom, id: &Vec<char>) -> (r: Option<usize>)
    ensures
        match r {
            Some(m) => (m as int) < d@.len() && first_div_id_from(d@, id@, 0) == Some(m as int),
            None => first_div_id_from(d@, id@, 0) is None,
        },
{
    let mut k: usize = 0;
    while k < d.nodes.len()
        invariant
            k <= d@.len(),
            d@.len() == d.nodes@.len(),
            first_div_id_from(d@, id@, 0) == first_div_id_from(d@, id@, k as int),
        decreases d@.len() - k,
    {
        proof {
            assert(d@[k as int] == d.nodes@[k as int]@);
        }
        if is_div_with_id_node(&d.nodes[k], id) {
            return Some(k);
        }
        k += 1;
    }
    None
}

/// The headword of the entry page: the `content` of the first meta tag with
/// `property="og:title"`, cut at the first `" |"`.
#[verifier::loop_isolation(false)]
pub fn get_wort_from_document(d: &Dom) -> (r: Result<String, String>)
    requires
        dom_wf(d@),
    ensures
        r matches Ok(s) ==> headword_spec(d@) == Ok::<Seq<char>, Seq<char>>(s@),
        r matches Err(e) ==> headword_spec(d@) == Err::<Seq<char>, Seq<char>>(e@),
{
    match find_og_meta(d) {
        None => Err(
            "Scraping error while searching for Wort meta tag: meta tag \"og:title\" not found".to_owned(),
        ),
        Some(m) => {
            proof {
                assert(d@[m as int] == d.nodes@[m as int]@);
            }
            let content = chars_of_str("content");
            match node_attr_value(&d.nodes[m], &content) {
                None => Err(
                    "Scraping error while searching for Wort attribute on meta tag: meta tag does not have attribute \"content\"".to_owned(),
                ),
                Some(v) => {
                    let cut = cut_at_delim(&v);
                    Ok(string_from_chars(&cut))
                },
            }
        },
    }
}

/// The arena index of the senses container: the first `div#bedeutung`,
/// else the first `div#bedeutungen`.
pub fn get_bedeutungs_node_from_document(d: &Dom) -> (r: Result<usize, String>)
    requires
        dom_wf(d@),
    ensures
        r matches Ok(c) ==> (c as int) < d@.len() && container_spec(d@) == Ok::<int, Seq<char>>(
            c as int,
        ),
        r matches Err(e) ==> container_spec(d@) == Err::<int, Seq<char>>(e@),
{
    let singular = chars_of_str("bedeutung");
    match find_div_with_id(d, &singular) {
        Some(c) => Ok(c),
        None => {
            let plural = chars_of_str("bedeutungen");
            match find_div_with_id(d, &plural) {
                Some(c) => Ok(c),
                None => Err(
                    "Scraping error while searching for bedeutungs node: \"div\" element with id \"bedeutung(en)\" not found".to_owned(),
                ),
            }
        },
    }
}

fn node_is_bad(n: &DomNode) -> (r: bool)
    ensures
        r == bad_node(n@),
{
    let figcaption = chars_of_str("figcaption");
    if crate::dom::elem_named(n, &figcaption) {
        return true;
    }
    let header = chars_of_str("header");
    if crate::dom::elem_named(n, &header) {
        return true;
    }
    let dl = chars_of_str("dl");
    if crate::dom::elem_named(n, &dl) {
        return true;
    }
    let special = chars_of_str("special-note");
    crate::dom::node_has_class(n, &special)
}

#[verifier::loop_isolation(false)]
fn is_excluded(d: &Dom, j: usize) -> (r: bool)
    requires
        dom_wf(d@),
        j < d@.len(),
    ensures
        r == excluded(d@, j as int),
{
    let mut cur = j;
    loop
        invariant
            cur < d@.len(),
            excluded(d@, j as int) == excluded(d@, cur as int),
        decreases cur,
    {
        proof {
            assert(d@[cur as int] == d.nodes@[cur as int]@);
            assert(crate::dom::parent_before(d@[cur as int], cur as int));
        }
        if node_is_bad(&d.nodes[cur]) {
            return true;
        }
        match d.nodes[cur].parent {
            None => {
                return false;
            },
            Some(p) => {
                cur = p;
            },
        }
    }
}

/// The raw gloss text of container `c`: the direct text of every node under
/// `c` outside the excluded subtrees, joined with single spaces.
#[verifier::loop_isolation(false)]
fn gloss_text(d: &Dom, c: usize) -> (r: Vec<char>)
    requires
        dom_wf(d@),
        c < d@.len(),
    ensures
        r@ == gloss_source(d@, c as int),
{
    let mut r: Vec<char> = Vec::new();
    let mut any = false;
    let mut k: usize = 0;
    while k < d.nodes.len()
        invariant
            k <= d@.len(),
            d@.len() == d.nodes@.len(),
            r@ == join_sp(fragments_upto(d@, c as int, k as int)),
            any == (fragments_upto(d@, c as int, k as int).len() > 0),
        decreases d@.len() - k,
    {
        proof {
            assert(d@[k as int] == d.nodes@[k as int]@);
        }
        let relevant = is_descendant(d, c, k) && !is_excluded(d, k);
        if relevant {
            let ghost frag = fragments_upto(d@, c as int, k as int);
            let ghost t = direct_text(d@[k as int]);
            proof {
                assert(fragments_upto(d@, c as int, k + 1 as int) == frag.push(t));
                if frag.len() > 0 {
                    assert(frag.push(t).drop_last() =~= frag);
                    assert(frag.push(t).last() == t);
                    assert(join_sp(frag.push(t)) == join_sp(frag) + seq![' '] + t);
                } else {
                    assert(frag.push(t) =~= seq![t]);
                    assert(join_sp(seq![t]) == t);
                }
            }
            if any {
                r.push(' ');
                proof {
                    assert(r@ =~= join_sp(frag) + seq![' ']);
                }
            }
            match &d.nodes[k].kind {
                NodeKind::Text { text } => {
                    let mut tc = chars_of_str(text.as_str());
                    proof {
                        assert(t == text@);
                    }
                    r.append(&mut tc);
                },
                _ => {
                    proof {
                        assert(t =~= Seq::<char>::empty());
                        assert(r@ + t =~= r@);
                    }
                },
            }
            proof {
                if frag.len() == 0 {
                    assert(Seq::<char>::empty() + t =~= t);
                }
                assert(r@ == join_sp(fragments_upto(d@, c as int, k + 1 as int)));
            }
            any = true;
        }
        k += 1;
    }
    r
}

/// The sense glosses of container `node`, in page order: the container's
/// gloss text split on newlines, trimmed, empty lines dropped. This never
/// fails; a page without gloss text yields an empty list.
#[verifier::loop_isolation(false)]
pub fn get_bedeutungen_from_node(d: &Dom, node: usize) -> (r: Result<Vec<String>, String>)
    requires
        dom_wf(d@),
        node < d@.len(),
    ensures
        r is Ok,
        r matches Ok(v) ==> strings_view(v@) == senses_of(d@, node as int),
{
    let joined = gloss_text(d, node);
    let pieces_v = split_chars(&joined, false);
    let ghost pieces = split_of(gloss_source(d@, node as int), false);
    proof {
        assert(pieces == pieces_v@.map_values(|p: Vec<char>| p@));
        assert(pieces.len() == pieces_v@.len());
    }
    let mut out: Vec<String> = Vec::new();
    let mut i: usize = 0;
    while i < pieces_v.len()
        invariant
            i <= pieces.len(),
            strings_view(out@) == glosses_from(pieces, i as int),
        decreases pieces.len() - i,
    {
        proof {
            assert(pieces[i as int] == pieces_v@[i as int]@);
        }
        let t = trim_chars(&pieces_v[i]);
        if t.len() > 0 {
            let s = string_from_chars(&t);
            out.push(s);
            proof {
                assert(strings_view(out@) =~= glosses_from(pieces, i + 1 as int));
            }
        }
        i += 1;
    }
    Ok(out)
}

#[verifier::loop_isolation(false)]
fn find_dt_child(d: &Dom, dl: usize) -> (r: Option<usize>)
    ensures
        match r {
            Some(m) => (m as int) < d@.len() && first_dt_child_from(d@, dl as int, 0) == Some(
                m as int,
            ),
            None => first_dt_child_from(d@, dl as int, 0) is None,
        },
{
    let dt = chars_of_str("dt");
    let mut m: usize = 0;
    while m < d.nodes.len()
        invariant
            m <= d@.len(),
            d@.len() == d.nodes@.len(),
            dt@ == "dt"@,
            first_dt_child_from(d@, dl as int, 0) == first_dt_child_from(d@, dl as int, m as int),
        decreases d@.len() - m,
    {
        proof {
            assert(d@[m as int] == d.nodes@[m as int]@);
        }
        let is_child = match d.nodes[m].parent {
            Some(p) => p == dl,
            None => false,
        };
        if is_child && crate::dom::elem_named(&d.nodes[m], &dt) {
            return Some(m);
        }
        m += 1;
    }
    None
}

/// The example groups of container `node`, in page order: for every `dl`
/// under it whose first direct `dt` child reads exactly `Beispiel` or
/// `Beispiele`, the concatenated descendant texts of its `li` descendants.
/// Definition lists with other titles contribute nothing. This never fails.
#[verifier::loop_isolation(false)]
pub fn get_beispiele_from_node(d: &Dom, node: usize) -> (r: Result<Vec<Vec<String>>, String>)
    requires
        dom_wf(d@),
        node < d@.len(),
    ensures
        r is Ok,
        r matches Ok(v) ==> groups_view(v@) == example_groups(d@, node as int),
{
    let dl_name = chars_of_str("dl");
    let li_name = chars_of_str("li");
    let beispiel = chars_of_str("Beispiel");
    let beispiele = chars_of_str("Beispiele");
    let mut out: Vec<Vec<String>> = Vec::new();
    let mut j: usize = 0;
    while j < d.nodes.len()
        invariant
            j <= d@.len(),
            d@.len() == d.nodes@.len(),
            dl_name@ == "dl"@,
            li_name@ == "li"@,
            beispiel@ == "Beispiel"@,
            beispiele@ == "Beispiele"@,
            groups_view(out@) == groups_upto(d@, node as int, j as int),
        decreases d@.len() - j,
    {
        proof {
            assert(d@[j as int] == d.nodes@[j as int]@);
        }
        let mut qualifies = false;
        if elem_named_at(d, j, &dl_name) && is_descendant(d, node, j) {
            match find_dt_child(d, j) {
                None => {},
                Some(m) => {
                    let t = subtree_text(d, m);
                    if chars_eq(&t, &beispiel) || chars_eq(&t, &beispiele) {
                        qualifies = true;
                    }
                },
            }
        }
        proof {
            assert(qualifies == beispiel_dl(d@, node as int, j as int));
        }
        if qualifies {
            let mut group: Vec<String> = Vec::new();
            let mut l: usize = 0;
            while l < d.nodes.len()
                invariant
                    l <= d@.len(),
                    strings_view(group@) == li_texts_upto(d@, j as int, l as int),
                decreases d@.len() - l,
            {
                proof {
                    assert(d@[l as int] == d.nodes@[l as int]@);
                }
                if elem_named_at(d, l, &li_name) && is_descendant(d, j, l) {
                    let t = subtree_text(d, l);
                    let s = string_from_chars(&t);
                    group.push(s);
                    proof {
                        assert(strings_view(group@) =~= li_texts_upto(d@, j as int, l + 1 as int));
                    }
                }
                l += 1;
            }
            out.push(group);
            proof {
                assert(groups_view(out@) =~= groups_upto(d@, node as int, j + 1 as int));
            }
        }
        j += 1;
    }
    Ok(out)
}

fn elem_named_at(d: &Dom, i: usize, name: &Vec<char>) -> (r: bool)
    requires
        i < d@.len(),
    ensures
        r == is_elem_named(d@[i as int], name@),
{
    proof {
        assert(d@[i as int] == d.nodes@[i as int]@);
    }
    crate::dom::elem_named(&d.nodes[i], name)
}

fn clone_strings(v: &Vec<String>) -> (r: Vec<String>)
    ensures
        strings_view(r@) == strings_view(v@),
{
    let mut r: Vec<String> = Vec::new();
    let mut i: usize = 0;
    while i < v.len()
        invariant
            i <= v@.len(),
            strings_view(r@) == strings_view(v@).take(i as int),
        decreases v@.len() - i,
    {
        let ghost r0 = r@;
        r.push(v[i].clone());
        proof {
            assert(r@ == r0.push(v@[i as int]));
            assert(strings_view(r0) == strings_view(v@).take(i as int));
            assert(strings_view(r0).len() == i);
            assert(r0.len() == i);
            assert(strings_view(r@).len() == i + 1);
            assert forall|k: int| 0 <= k < i + 1 implies strings_view(r@)[k] == strings_view(
                v@,
            ).take(i + 1 as int)[k] by {
                if k < i {
                    assert(strings_view(r0)[k] == strings_view(v@).take(i as int)[k]);
                    assert(r@[k] == r0[k]);
                } else {
                    assert(r@[k] == v@[i as int]);
                }
            }
            assert(strings_view(r@) =~= strings_view(v@).take(i + 1 as int));
        }
        i += 1;
    }
    proof {
        assert(strings_view(v@).take(v@.len() as int) =~= strings_view(v@));
    }
    r
}

/// The whole extraction for one entry-page document.
#[verifier::loop_isolation(false)]
pub fn extract_entry(d: &Dom) -> (r: Result<Wort, String>)
    requires
        dom_wf(d@),
    ensures
        r matches Ok(w) ==> extract_spec(d@) == Ok::<WortModel, Seq<char>>(w@),
        r matches Err(e) ==> extract_spec(d@) == Err::<WortModel, Seq<char>>(e@),
{
    let wort = match get_wort_from_document(d) {
        Ok(s) => s,
        Err(e) => {
            return Err(e);
        },
    };
    let c = match get_bedeutungs_node_from_document(d) {
        Ok(c) => c,
        Err(e) => {
            return Err(e);
        },
    };
    let bedeutungen = match get_bedeutungen_from_node(d, c) {
        Ok(v) => v,
        Err(e) => {
            return Err(e);
        },
    };
    let beispiele = match get_beispiele_from_node(d, c) {
        Ok(v) => v,
        Err(e) => {
            return Err(e);
        },
    };
    let ghost senses = senses_of(d@, c as int);
    let ghost groups = example_groups(d@, c as int);
    let mut bs: Vec<Bedeutung> = Vec::new();
    let mut i: usize = 0;
    while i < bedeutungen.len()
        invariant
            i <= bedeutungen@.len(),
            strings_view(bedeutungen@) == senses,
            groups_view(beispiele@) == groups,
            bs@.map_values(|b: Bedeutung| b@) == aligned(senses, groups).take(i as int),
        decreases bedeutungen@.len() - i,
    {
        let ex = if i < beispiele.len() {
            clone_strings(&beispiele[i])
        } else {
            Vec::new()
        };
        let b = Bedeutung { bedeutung: bedeutungen[i].clone(), beispiele: ex };
        proof {
            assert(senses[i as int] == bedeutungen@[i as int]@);
            assert(b@.beispiele =~~= strings_view(ex@));
            if i < beispiele@.len() {
                assert(groups[i as int] == strings_view(beispiele@[i as int]@));
            } else {
                assert(strings_view(ex@) =~~= Seq::<Seq<char>>::empty());
            }
            assert(b@ == aligned(senses, groups)[i as int]);
        }
        bs.push(b);
        proof {
            assert(bs@.map_values(|b: Bedeutung| b@) =~= aligned(senses, groups).take(i + 1 as int));
        }
        i += 1;
    }
    proof {
        assert(aligned(senses, groups).take(senses.len() as int) =~= aligned(senses, groups));
    }
    let w = Wort { wort, bedeutungen: bs };
    proof {
        assert(w@.bedeutungen == aligned(senses, groups));
        assert(w@ == extract_spec(d@)->Ok_0);
    }
    Ok(w)
}

} // verus!
