use duden::dom::{Dom, DomNode, NodeKind};
use duden::extract::{
    extract_entry, get_bedeutungen_from_node, get_beispiele_from_node,
    get_bedeutungs_node_from_document, get_wort_from_document,
};

fn elem(name: &str, attrs: Vec<(&str, &str)>, parent: Option<usize>) -> DomNode {
    DomNode {
        kind: NodeKind::Element {
            name: name.to_string(),
            attrs: attrs
                .into_iter()
                .map(|(k, v)| (k.to_string(), v.to_string()))
                .collect(),
        },
        parent,
    }
}

fn text(t: &str, parent: Option<usize>) -> DomNode {
    DomNode {
        kind: NodeKind::Text {
            text: t.to_string(),
        },
        parent,
    }
}

/// A container document built by hand: a `div#bedeutung` holding two gloss
/// lines and one example list.
fn container_document() -> Dom {
    Dom {
        nodes: vec![
            elem("div", vec![("id", "bedeutung")], None),
            text("Sinn eins\nSinn zwei", Some(0)),
            elem("dl", vec![], Some(0)),
            elem("dt", vec![], Some(2)),
            text("Beispiele", Some(3)),
            elem("dd", vec![], Some(2)),
            elem("ul", vec![], Some(5)),
            elem("li", vec![], Some(6)),
            text("B eins", Some(7)),
        ],
    }
}

#[test]
fn senses_are_read_from_container_text() {
    let d = container_document();
    let c = get_bedeutungs_node_from_document(&d).unwrap();
    assert_eq!(c, 0);
    let senses = get_bedeutungen_from_node(&d, c).unwrap();
    assert_eq!(senses, vec!["Sinn eins".to_string(), "Sinn zwei".to_string()]);
}

#[test]
fn example_groups_are_read_from_dl_lists() {
    let d = container_document();
    let groups = get_beispiele_from_node(&d, 0).unwrap();
    assert_eq!(groups, vec![vec!["B eins".to_string()]]);
}

#[test]
fn headword_is_read_from_meta_node() {
    let d = Dom {
        nodes: vec![elem(
            "meta",
            vec![("property", "og:title"), ("content", "Haus | Duden")],
            None,
        )],
    };
    assert_eq!(get_wort_from_document(&d).unwrap(), "Haus");
}

#[test]
fn entry_is_assembled_from_document() {
    let mut d = container_document();
    let shift = |p: Option<usize>| p.map(|i| i + 1);
    for n in d.nodes.iter_mut() {
        n.parent = shift(n.parent);
    }
    d.nodes.insert(
        0,
        elem(
            "meta",
            vec![("property", "og:title"), ("content", "Sinn")],
            None,
        ),
    );
    let w = extract_entry(&d).unwrap();
    assert_eq!(w.wort, "Sinn");
    assert_eq!(w.bedeutungen.len(), 2);
    assert_eq!(w.bedeutungen[0].bedeutung, "Sinn eins");
    assert_eq!(w.bedeutungen[0].beispiele, vec!["B eins".to_string()]);
    assert!(w.bedeutungen[1].beispiele.is_empty());
}
