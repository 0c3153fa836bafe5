use duden::{Bedeutung, Wort};

#[test]
fn record_renders_line_by_line() {
    let w = Wort {
        wort: "Haus".to_string(),
        bedeutungen: vec![
            Bedeutung {
                bedeutung: "ein Gebäude".to_string(),
                beispiele: vec!["b1".to_string(), "b2".to_string()],
            },
            Bedeutung {
                bedeutung: "eine Familie".to_string(),
                beispiele: vec![],
            },
        ],
    };
    assert_eq!(
        w.render(),
        "Wort: Haus\nBedeutung(en):\n    ein Gebäude\n    Beispiel(e):\n        b1\n        b2\n\n    eine Familie\n    Beispiel(e):\n\n"
    );
}

#[test]
fn record_without_senses_renders_headers_only() {
    let w = Wort {
        wort: "Haus".to_string(),
        bedeutungen: vec![],
    };
    assert_eq!(w.render(), "Wort: Haus\nBedeutung(en):\n");
}
