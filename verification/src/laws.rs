//! The laws the library states of itself, proved over the specification
//! functions that the public contracts use.

use vstd::prelude::*;

use crate::dom::{dom_wf, is_desc, NodeModel};
use crate::extract::{
    bad_node, container_spec, example_groups, excluded, extract_spec, glosses_from, gloss_source,
    headword_spec, senses_of,
};
use crate::resolve::resolve_spec;
use crate::text::{is_delim_at, lemma_before_delim_clean, lemma_trim_fixed, split_of, trim_of};
use crate::WortModel;

verus! {

proof fn lemma_glosses_from_props(pieces: Seq<Seq<char>>, k: int)
    ensures
        forall|i: int|
            0 <= i < glosses_from(pieces, k).len() ==> (#[trigger] glosses_from(pieces, k)[i]).len()
                > 0 && trim_of(glosses_from(pieces, k)[i]) == glosses_from(pieces, k)[i],
        (exists|i: int| 0 <= i < k && i < pieces.len() && trim_of(#[trigger] pieces[i]).len() > 0)
            ==> glosses_from(pieces, k).len() > 0,
    decreases k,
{
    if k > 0 {
        lemma_glosses_from_props(pieces, k - 1);
        if trim_of(pieces[k - 1]).len() > 0 {
            lemma_trim_fixed(pieces[k - 1]);
        } else {
            assert((exists|i: int|
                0 <= i < k && i < pieces.len() && trim_of(#[trigger] pieces[i]).len() > 0)
                ==> (exists|i: int|
                0 <= i < k - 1 && i < pieces.len() && trim_of(#[trigger] pieces[i]).len() > 0));
        }
    }
}

/// Whether some line of the gloss text of container `c` is non-empty after
/// trimming — exactly when the page yields at least one sense.
pub open spec fn some_line_nonblank(d: Seq<NodeModel>, c: int) -> bool {
    exists|i: int|
        0 <= i < split_of(gloss_source(d, c), false).len() && trim_of(
            #[trigger] split_of(gloss_source(d, c), false)[i],
        ).len() > 0
}

/// For every successfully extracted record: the number of senses is the
/// number of gloss lines of the senses container; every gloss is non-empty
/// and unchanged by trimming; and at least one sense exists whenever some
/// line of the container's text is non-empty after trimming.
pub proof fn lemma_word_senses(d: Seq<NodeModel>, w: WortModel, c: int)
    requires
        extract_spec(d) == Ok::<WortModel, Seq<char>>(w),
        container_spec(d) == Ok::<int, Seq<char>>(c),
    ensures
        w.bedeutungen.len() == senses_of(d, c).len(),
        forall|i: int|
            0 <= i < w.bedeutungen.len() ==> (#[trigger] w.bedeutungen[i]).bedeutung.len() > 0
                && trim_of(w.bedeutungen[i].bedeutung) == w.bedeutungen[i].bedeutung,
        some_line_nonblank(d, c) ==> w.bedeutungen.len() >= 1,
{
    let pieces = split_of(gloss_source(d, c), false);
    lemma_glosses_from_props(pieces, pieces.len() as int);
    assert forall|i: int| 0 <= i < w.bedeutungen.len() implies (
    #[trigger] w.bedeutungen[i]).bedeutung.len() > 0 && trim_of(w.bedeutungen[i].bedeutung)
        == w.bedeutungen[i].bedeutung by {
        assert(w.bedeutungen[i].bedeutung == senses_of(d, c)[i]);
    }
}

/// For every successfully extracted record, each sense carries exactly the
/// example group aligned to it by position: group `i` where the page
/// provides one, the empty group otherwise; extra groups are discarded.
pub proof fn lemma_examples_aligned(d: Seq<NodeModel>, w: WortModel, c: int)
    requires
        extract_spec(d) == Ok::<WortModel, Seq<char>>(w),
        container_spec(d) == Ok::<int, Seq<char>>(c),
    ensures
        forall|i: int|
            0 <= i < w.bedeutungen.len() ==> (#[trigger] w.bedeutungen[i]).beispiele == (if i
                < example_groups(d, c).len() {
                example_groups(d, c)[i]
            } else {
                Seq::<Seq<char>>::empty()
            }),
{
}

/// The headword of a successfully extracted record never contains the
/// delimiter `" |"`.
pub proof fn lemma_headword_clean(d: Seq<NodeModel>, w: WortModel)
    requires
        extract_spec(d) == Ok::<WortModel, Seq<char>>(w),
    ensures
        forall|i: int| !is_delim_at(w.wort, i),
{
    let m = crate::extract::first_og_meta_from(d, 0)->Some_0;
    let content = crate::dom::node_attr(d[m], "content"@)->Some_0;
    assert(headword_spec(d) == Ok::<Seq<char>, Seq<char>>(crate::text::before_delim(content)));
    lemma_before_delim_clean(content);
}

/// A node is cut out of the gloss text exactly when it is, or descends
/// from, a `figcaption`, a `header`, a `dl`, or an element of class
/// `special-note`.
pub proof fn lemma_excluded_iff_bad_above(d: Seq<NodeModel>, j: int)
    requires
        dom_wf(d),
        0 <= j < d.len(),
    ensures
        excluded(d, j) <==> exists|k: int|
            0 <= k < d.len() && #[trigger] bad_node(d[k]) && (k == j || is_desc(d, k, j)),
    decreases j,
{
    if excluded(d, j) {
        if bad_node(d[j]) {
            assert(0 <= j < d.len() && bad_node(d[j]) && (j == j || is_desc(d, j, j)));
        } else {
            let p = d[j].parent->Some_0 as int;
            assert(crate::dom::parent_before(d[j], j));
            lemma_excluded_iff_bad_above(d, p);
            let k = choose|k: int|
                0 <= k < d.len() && #[trigger] bad_node(d[k]) && (k == p || is_desc(d, k, p));
            assert(is_desc(d, k, j));
        }
    }
    if exists|k: int| 0 <= k < d.len() && #[trigger] bad_node(d[k]) && (k == j || is_desc(d, k, j)) {
        let k = choose|k: int|
            0 <= k < d.len() && #[trigger] bad_node(d[k]) && (k == j || is_desc(d, k, j));
        if k != j {
            lemma_desc_of_bad_excluded(d, k, j);
        }
        assert(excluded(d, j));
    }
}

proof fn lemma_desc_of_bad_excluded(d: Seq<NodeModel>, k: int, j: int)
    requires
        dom_wf(d),
        0 <= j < d.len(),
        0 <= k < d.len(),
        bad_node(d[k]),
        is_desc(d, k, j),
    ensures
        excluded(d, j),
    decreases j,
{
    assert(crate::dom::parent_before(d[j], j));
    let p = d[j].parent->Some_0 as int;
    if p == k {
        assert(excluded(d, k));
    } else {
        lemma_desc_of_bad_excluded(d, k, p);
    }
    assert(excluded(d, j));
}

/// The outcome of fetching the word of the day from fixed landing and entry
/// documents: resolve the slug, then extract the entry.
pub open spec fn wort_des_tages_spec(landing: Seq<NodeModel>, entry: Seq<NodeModel>) -> Result<
    WortModel,
    Seq<char>,
> {
    match resolve_spec(landing) {
        Err(e) => Err(e),
        Ok(_) => extract_spec(entry),
    }
}

/// Fetching the word of the day is resolving the slug and then fetching the
/// entry: it fails with the resolver's error when the slug does not resolve,
/// and is the entry extraction otherwise.
pub proof fn lemma_wort_des_tages_composes(landing: Seq<NodeModel>, entry: Seq<NodeModel>)
    ensures
        resolve_spec(landing) is Err ==> wort_des_tages_spec(landing, entry) == Err::<
            WortModel,
            Seq<char>,
        >(resolve_spec(landing)->Err_0),
        resolve_spec(landing) is Ok ==> wort_des_tages_spec(landing, entry) == extract_spec(entry),
{
}

} // verus!
