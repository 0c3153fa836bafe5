//! The document model the extractor works on: a flat arena of HTML nodes in
//! document (preorder) order, each node carrying its kind and the arena index
//! of its parent. Tag names, attributes and text are plain strings, so every
//! query the extraction needs — tag name, attribute value, class membership,
//! child and descendant relations, concatenated descendant text — is specified
//! and verified here.

use vstd::prelude::*;

use crate::text::{chars_eq, chars_of_str, is_space_char, split_of};

verus! {

/// What one node holds: an element with tag name and attributes in page
/// order, a text node, or a comment.
pub enum NodeKind {
    Element { name: String, attrs: Vec<(String, String)> },
    Text { text: String },
    Comment,
}

/// One node of a parsed document. `parent` is the arena index of the
/// enclosing node, `None` for a root.
pub struct DomNode {
    pub kind: NodeKind,
    pub parent: Option<usize>,
}

/// A parsed HTML document: its nodes in document (preorder) order.
pub struct Dom {
    pub nodes: Vec<DomNode>,
}

/// Model of a [`NodeKind`].
pub ghost enum NodeKindModel {
    Element { name: Seq<char>, attrs: Seq<(Seq<char>, Seq<char>)> },
    Text { text: Seq<char> },
    Comment,
}

/// Model of a [`DomNode`].
pub ghost struct NodeModel {
    pub kind: NodeKindModel,
    pub parent: Option<usize>,
}

impl View for DomNode {
    type V = NodeModel;

    open spec fn view(&self) -> NodeModel {
        NodeModel {
            kind: match self.kind {
                NodeKind::Element { name, attrs } => NodeKindModel::Element {
                    name: name@,
                    attrs: attrs@.map_values(|a: (String, String)| (a.0@, a.1@)),
                },
                NodeKind::Text { text } => NodeKindModel::Text { text: text@ },
                NodeKind::Comment => NodeKindModel::Comment,
            },
            parent: self.parent,
        }
    }
}

impl View for Dom {
    type V = Seq<NodeModel>;

    open spec fn view(&self) -> Seq<NodeModel> {
        self.nodes@.map_values(|n: DomNode| n@)
    }
}

/// In a preorder arena every parent stands before its children.
pub open spec fn parent_before(n: NodeModel, i: int) -> bool {
    match n.parent {
        Some(p) => (p as int) < i,
        None => true,
    }
}

/// Well-formedness of a document: parent indices point backwards, so every
/// chain of parents ends.
pub open spec fn dom_wf(d: Seq<NodeModel>) -> bool {
    forall|i: int| 0 <= i < d.len() ==> parent_before(#[trigger] d[i], i)
}

/// Node `j` is a strict descendant of node `a`: the chain of parents from
/// `j` reaches `a`.
pub open spec fn is_desc(d: Seq<NodeModel>, a: int, j: int) -> bool
    decreases j,
{
    0 <= j < d.len() && match d[j].parent {
        Some(p) => (p as int) == a || ((p as int) < j && is_desc(d, a, p as int)),
        None => false,
    }
}

pub fn is_descendant(d: &Dom, a: usize, j: usize) -> (r: bool)
    requires
        dom_wf(d@),
        j < d@.len(),
    ensures
        r == is_desc(d@, a as int, j as int),
{
    let mut cur = j;
    loop
        invariant
            dom_wf(d@),
            cur < d@.len(),
            is_desc(d@, a as int, j as int) == is_desc(d@, a as int, cur as int),
        decreases cur,
    {
        proof {
            assert(d@[cur as int] == d.nodes@[cur as int]@);
            assert(parent_before(d@[cur as int], cur as int));
        }
        match d.nodes[cur].parent {
            None => {
                return false;
            },
            Some(p) => {
                if p == a {
                    return true;
                }
                cur = p;
            },
        }
    }
}

/// The text a node holds directly: the content of a text node, nothing for
/// elements and comments.
pub open spec fn direct_text(n: NodeModel) -> Seq<char> {
    match n.kind {
        NodeKindModel::Text { text } => text,
        _ => Seq::empty(),
    }
}

/// Whether `n` is an element with tag name `name`.
pub open spec fn is_elem_named(n: NodeModel, name: Seq<char>) -> bool {
    match n.kind {
        NodeKindModel::Element { name: nm, .. } => nm == name,
        _ => false,
    }
}

/// The value of the first attribute called `name`, if any.
pub open spec fn attr_val(attrs: Seq<(Seq<char>, Seq<char>)>, name: Seq<char>) -> Option<Seq<char>>
    decreases attrs.len(),
{
    if attrs.len() == 0 {
        None
    } else if attrs[0].0 == name {
        Some(attrs[0].1)
    } else {
        attr_val(attrs.drop_first(), name)
    }
}

/// The value of attribute `name` on node `n`: the first binding on an
/// element, nothing on text nodes and comments.
pub open spec fn node_attr(n: NodeModel, name: Seq<char>) -> Option<Seq<char>> {
    match n.kind {
        NodeKindModel::Element { attrs, .. } => attr_val(attrs, name),
        _ => None,
    }
}

/// Whether `class` stands among the white-space separated words of `v`.
pub open spec fn class_list_has(v: Seq<char>, class: Seq<char>) -> bool {
    exists|i: int| 0 <= i < split_of(v, true).len() && #[trigger] split_of(v, true)[i] == class
}

/// Whether the class attribute of `n`, split on white space, contains the
/// word `class`.
pub open spec fn has_class(n: NodeModel, class: Seq<char>) -> bool {
    match node_attr(n, "class"@) {
        Some(v) => class_list_has(v, class),
        None => false,
    }
}

pub fn elem_named(n: &DomNode, name: &Vec<char>) -> (r: bool)
    ensures
        r == is_elem_named(n@, name@),
{
    match &n.kind {
        NodeKind::Element { name: nm, .. } => {
            let nc = chars_of_str(nm.as_str());
            chars_eq(&nc, name)
        },
        _ => false,
    }
}

#[verifier::loop_isolation(false)]
pub fn node_attr_value(n: &DomNode, name: &Vec<char>) -> (r: Option<Vec<char>>)
    ensures
        match r {
            Some(v) => node_attr(n@, name@) == Some(v@),
            None => node_attr(n@, name@) is None,
        },
{
    match &n.kind {
        NodeKind::Element { attrs, .. } => {
            let ghost av = n@.kind->Element_attrs;
            proof {
                assert(n@.kind is Element);
                assert(av == attrs@.map_values(|a: (String, String)| (a.0@, a.1@)));
                assert(av.len() == attrs@.len());
                assert(node_attr(n@, name@) == attr_val(av, name@));
                assert(av.skip(0) =~= av);
            }
            let mut i: usize = 0;
            while i < attrs.len()
                invariant
                    av == attrs@.map_values(|a: (String, String)| (a.0@, a.1@)),
                    i <= av.len(),
                    attr_val(av, name@) == attr_val(av.skip(i as int), name@),
                decreases av.len() - i,
            {
                proof {
                    assert(av.skip(i as int)[0] == av[i as int]);
                    assert(av.skip(i as int).drop_first() =~= av.skip(i + 1 as int));
                }
                let key = chars_of_str(attrs[i].0.as_str());
                if chars_eq(&key, name) {
                    let v = chars_of_str(attrs[i].1.as_str());
                    proof {
                        assert(av[i as int] == (attrs@[i as int].0@, attrs@[i as int].1@));
                        assert(av.skip(i as int)[0].0 == name@);
                        assert(attr_val(av.skip(i as int), name@) == Some(av[i as int].1));
                    }
                    return Some(v);
                }
                i += 1;
            }
            proof {
                assert(av.skip(av.len() as int) =~= Seq::<(Seq<char>, Seq<char>)>::empty());
            }
            None
        },
        _ => None,
    }
}

#[verifier::loop_isolation(false)]
pub fn node_has_class(n: &DomNode, class: &Vec<char>) -> (r: bool)
    ensures
        r == has_class(n@, class@),
{
    let cname = chars_of_str("class");
    match node_attr_value(n, &cname) {
        None => false,
        Some(v) => {
            let toks = crate::text::split_chars(&v, true);
            let ghost pieces = split_of(v@, true);
            proof {
                assert(pieces.len() == toks@.len());
            }
            let mut i: usize = 0;
            while i < toks.len()
                invariant
                    pieces == toks@.map_values(|p: Vec<char>| p@),
                    i <= pieces.len(),
                    forall|k: int| 0 <= k < i ==> pieces[k] != class@,
                decreases pieces.len() - i,
            {
                if chars_eq(&toks[i], class) {
                    proof {
                        assert(pieces[i as int] == toks@[i as int]@);
                        assert(0 <= i < split_of(v@, true).len() && split_of(v@, true)[i as int]
                            == class@);
                        assert(cname@ == "class"@);
                        assert(node_attr(n@, "class"@) == Some(v@));
                        assert(class_list_has(v@, class@));
                    }
                    return true;
                }
                i += 1;
            }
            false
        },
    }
}

/// The concatenated text of node `i` and of all its descendants, read over
/// the first `k` nodes of the document.
pub open spec fn text_upto(d: Seq<NodeModel>, i: int, k: int) -> Seq<char>
    decreases k,
{
    if k <= 0 {
        Seq::empty()
    } else {
        text_upto(d, i, k - 1) + (if k - 1 == i || is_desc(d, i, k - 1) {
            direct_text(d[k - 1])
        } else {
            Seq::empty()
        })
    }
}

/// The concatenated descendant text of node `i`, in document order, the
/// node's own text included.
pub open spec fn node_text(d: Seq<NodeModel>, i: int) -> Seq<char> {
    text_upto(d, i, d.len() as int)
}

pub fn subtree_text(d: &Dom, i: usize) -> (r: Vec<char>)
    requires
        dom_wf(d@),
        i < d@.len(),
    ensures
        r@ == node_text(d@, i as int),
{
    let mut r: Vec<char> = Vec::new();
    let mut k: usize = 0;
    while k < d.nodes.len()
        invariant
            dom_wf(d@),
            i < d@.len(),
            d@.len() == d.nodes@.len(),
            k <= d@.len(),
            r@ == text_upto(d@, i as int, k as int),
        decreases d@.len() - k,
    {
        proof {
            assert(d@[k as int] == d.nodes@[k as int]@);
        }
        let in_sub = k == i || is_descendant(d, i, k);
        if in_sub {
            match &d.nodes[k].kind {
                NodeKind::Text { text } => {
                    let mut tc = chars_of_str(text.as_str());
                    proof {
                        assert(direct_text(d@[k as int]) == text@);
                    }
                    r.append(&mut tc);
                },
                _ => {
                    proof {
                        assert(direct_text(d@[k as int]) =~= Seq::<char>::empty());
                        assert(r@ + Seq::<char>::empty() =~= r@);
                    }
                },
            }
        } else {
            proof {
                assert(r@ + Seq::<char>::empty() =~= r@);
            }
        }
        k += 1;
    }
    r
}

} // verus!
