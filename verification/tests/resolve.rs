use duden::html::{get_wort_des_tages_link_name_from_html, wort_url};

fn landing_page(anchor: &str) -> String {
    format!("<html><head></head><body>{}</body></html>", anchor)
}

#[test]
fn slug_is_resolved_from_anchor() {
    let html = landing_page(
        "<a class=\"scene__title-link\" href=\"/rechtschreibung/Pusteblume\">Pusteblume</a>",
    );
    let slug = get_wort_des_tages_link_name_from_html(&html).unwrap();
    assert_eq!(slug, "Pusteblume");
}

#[test]
fn anchor_class_may_stand_among_others() {
    let html = landing_page(
        "<a class=\"box scene__title-link wide\" href=\"/rechtschreibung/Herbst\">Herbst</a>",
    );
    let slug = get_wort_des_tages_link_name_from_html(&html).unwrap();
    assert_eq!(slug, "Herbst");
}

#[test]
fn wrong_prefix_is_reported() {
    let html = landing_page("<a class=\"scene__title-link\" href=\"/other/foo\">foo</a>");
    let e = get_wort_des_tages_link_name_from_html(&html).unwrap_err();
    assert_eq!(
        e,
        "Scraping error while searching for Wort-des-Tages Wort-Link: link does not have correct scheme \"/rechtschreibung/{wort}\""
    );
}

#[test]
fn missing_anchor_is_reported() {
    let html = landing_page("<a class=\"scene__titlelink\" href=\"/rechtschreibung/x\">x</a>");
    let e = get_wort_des_tages_link_name_from_html(&html).unwrap_err();
    assert_eq!(
        e,
        "Scraping error while searching for Wort-des-Tages Wort-Link: \"a\" element not found"
    );
}

#[test]
fn missing_href_is_reported() {
    let html = landing_page("<a class=\"scene__title-link\">x</a>");
    let e = get_wort_des_tages_link_name_from_html(&html).unwrap_err();
    assert_eq!(
        e,
        "Scraping error while searching for Wort-des-Tages Wort-Link: \"a\" element does not have \"href\" attribute"
    );
}

#[test]
fn url_is_built_from_slug() {
    assert_eq!(
        wort_url("Pusteblume"),
        "https://www.duden.de/rechtschreibung/Pusteblume"
    );
}
