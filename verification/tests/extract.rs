use duden::html::get_wort_from_html;

fn entry_page(og_title: &str, body: &str) -> String {
    format!(
        "<html><head><meta property=\"og:title\" content=\"{}\"></head><body>{}</body></html>",
        og_title, body
    )
}

#[test]
fn single_sense_single_example() {
    let html = entry_page(
        "Haus | Rechtschreibung &ndash; Duden",
        "<div id=\"bedeutung\">ein Geb&auml;ude<dl><dt>Beispiel</dt><dd><ul><li>ein Beispiel</li></ul></dd></dl></div>",
    );
    let w = get_wort_from_html(&html).unwrap();
    assert_eq!(w.wort, "Haus");
    assert_eq!(w.bedeutungen.len(), 1);
    assert_eq!(w.bedeutungen[0].bedeutung, "ein Gebäude");
    assert_eq!(w.bedeutungen[0].beispiele, vec!["ein Beispiel".to_string()]);
}

#[test]
fn three_senses_two_example_groups() {
    let html = entry_page(
        "gehen | Rechtschreibung",
        "<div id=\"bedeutungen\">eins\nzwei\ndrei<dl><dt>Beispiele</dt><dd><ul><li>b1</li></ul></dd></dl><dl><dt>Beispiele</dt><dd><ul><li>b2</li><li>b3</li></ul></dd></dl></div>",
    );
    let w = get_wort_from_html(&html).unwrap();
    assert_eq!(w.wort, "gehen");
    assert_eq!(w.bedeutungen.len(), 3);
    assert_eq!(w.bedeutungen[0].bedeutung, "eins");
    assert_eq!(w.bedeutungen[1].bedeutung, "zwei");
    assert_eq!(w.bedeutungen[2].bedeutung, "drei");
    assert_eq!(w.bedeutungen[0].beispiele, vec!["b1".to_string()]);
    assert_eq!(
        w.bedeutungen[1].beispiele,
        vec!["b2".to_string(), "b3".to_string()]
    );
    assert!(w.bedeutungen[2].beispiele.is_empty());
}

#[test]
fn sprichwoerter_list_gives_no_examples() {
    let html = entry_page(
        "Haus",
        "<div id=\"bedeutung\">ein Geb&auml;ude<dl><dt>Sprichw\u{f6}rter</dt><dd><ul><li>wie Gott in Frankreich</li></ul></dd></dl></div>",
    );
    let w = get_wort_from_html(&html).unwrap();
    assert_eq!(w.bedeutungen.len(), 1);
    assert_eq!(w.bedeutungen[0].bedeutung, "ein Gebäude");
    assert!(w.bedeutungen[0].beispiele.is_empty());
}

#[test]
fn redewendungen_list_gives_no_examples() {
    let html = entry_page(
        "Haus",
        "<div id=\"bedeutung\">ein Geb&auml;ude<dl><dt>Redewendungen</dt><dd><ul><li>von Haus aus</li></ul></dd></dl></div>",
    );
    let w = get_wort_from_html(&html).unwrap();
    assert_eq!(w.bedeutungen.len(), 1);
    assert!(w.bedeutungen[0].beispiele.is_empty());
}

#[test]
fn headword_is_cut_at_delimiter() {
    let html = entry_page(
        "Haus | Rechtschreibung \u{2013} Duden",
        "<div id=\"bedeutung\">ein Geb&auml;ude</div>",
    );
    let w = get_wort_from_html(&html).unwrap();
    assert_eq!(w.wort, "Haus");
}

#[test]
fn headword_without_delimiter_is_kept_whole() {
    let html = entry_page("Haus", "<div id=\"bedeutung\">ein Geb&auml;ude</div>");
    let w = get_wort_from_html(&html).unwrap();
    assert_eq!(w.wort, "Haus");
}

#[test]
fn missing_container_is_reported() {
    let html = entry_page("Haus", "<p>kein Container</p>");
    let e = get_wort_from_html(&html).unwrap_err();
    assert_eq!(
        e,
        "Scraping error while searching for bedeutungs node: \"div\" element with id \"bedeutung(en)\" not found"
    );
}

#[test]
fn missing_meta_tag_is_reported() {
    let html = "<html><head></head><body><div id=\"bedeutung\">x</div></body></html>";
    let e = get_wort_from_html(html).unwrap_err();
    assert_eq!(
        e,
        "Scraping error while searching for Wort meta tag: meta tag \"og:title\" not found"
    );
}

#[test]
fn meta_tag_without_content_is_reported() {
    let html = "<html><head><meta property=\"og:title\"></head><body><div id=\"bedeutung\">x</div></body></html>";
    let e = get_wort_from_html(html).unwrap_err();
    assert_eq!(
        e,
        "Scraping error while searching for Wort attribute on meta tag: meta tag does not have attribute \"content\""
    );
}

#[test]
fn singular_container_is_tried_first() {
    let html = entry_page(
        "Haus",
        "<div id=\"bedeutung\">richtig</div><div id=\"bedeutungen\">falsch</div>",
    );
    let w = get_wort_from_html(&html).unwrap();
    assert_eq!(w.bedeutungen.len(), 1);
    assert_eq!(w.bedeutungen[0].bedeutung, "richtig");
}

#[test]
fn decorations_are_excluded_from_glosses() {
    let html = entry_page(
        "Haus",
        "<div id=\"bedeutungen\">eine Bedeutung<figcaption>Bild</figcaption><header>Kopf</header><p class=\"special-note\">Hinweis</p></div>",
    );
    let w = get_wort_from_html(&html).unwrap();
    assert_eq!(w.bedeutungen.len(), 1);
    assert_eq!(w.bedeutungen[0].bedeutung, "eine Bedeutung");
}

#[test]
fn whitespace_only_container_gives_no_senses() {
    let html = entry_page("Haus", "<div id=\"bedeutung\"> \n \n </div>");
    let w = get_wort_from_html(&html).unwrap();
    assert_eq!(w.bedeutungen.len(), 0);
}

#[test]
fn extra_example_groups_are_discarded() {
    let html = entry_page(
        "Haus",
        "<div id=\"bedeutung\">nur eine<dl><dt>Beispiele</dt><dd><ul><li>b1</li></ul></dd></dl><dl><dt>Beispiele</dt><dd><ul><li>b2</li></ul></dd></dl></div>",
    );
    let w = get_wort_from_html(&html).unwrap();
    assert_eq!(w.bedeutungen.len(), 1);
    assert_eq!(w.bedeutungen[0].beispiele, vec!["b1".to_string()]);
}

#[test]
fn dl_without_dt_is_skipped() {
    let html = entry_page(
        "Haus",
        "<div id=\"bedeutung\">eine Bedeutung<dl><dd><ul><li>verwaist</li></ul></dd></dl></div>",
    );
    let w = get_wort_from_html(&html).unwrap();
    assert_eq!(w.bedeutungen.len(), 1);
    assert!(w.bedeutungen[0].beispiele.is_empty());
}

#[test]
fn extraction_is_deterministic() {
    let html = entry_page(
        "Haus",
        "<div id=\"bedeutungen\">eins\nzwei<dl><dt>Beispiel</dt><dd><ul><li>b1</li></ul></dd></dl></div>",
    );
    let w1 = get_wort_from_html(&html).unwrap();
    let w2 = get_wort_from_html(&html).unwrap();
    assert_eq!(w1.render(), w2.render());
}
