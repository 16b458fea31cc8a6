use quote_harvest::extract::{
    collect_records, extract_page, parse_quote_html, scan_page, Field, FieldMatches, Malformed,
    SelectorRules,
};
use quote_harvest::record::Quote;

fn rules() -> SelectorRules {
    match SelectorRules::standard() {
        Ok(rules) => rules,
        Err(field) => panic!("the standard rules do not compile: {:?}", field),
    }
}

fn strings(items: &[&str]) -> Vec<String> {
    items.iter().map(|s| s.to_string()).collect()
}

fn matches_of(text: &[&str], author: &[&str], tags: &[&str]) -> FieldMatches {
    FieldMatches { text: strings(text), author: strings(author), tags: strings(tags) }
}

#[test]
fn one_container_gives_one_record_with_tags_in_order() {
    let markup = "<div class=\"quote\"><span class=\"text\">T</span>\
                  <small class=\"author\">A</small>\
                  <a class=\"tag\">x</a><a class=\"tag\">y</a></div>";
    let quotes = parse_quote_html(markup, &rules());
    assert_eq!(quotes.len(), 1);
    assert_eq!(quotes[0].text(), "T");
    assert_eq!(quotes[0].author(), "A");
    assert_eq!(quotes[0].tags(), &strings(&["x", "y"]));
}

#[test]
fn container_without_author_is_skipped() {
    let markup = "<div class=\"quote\"><span class=\"text\">first</span>\
                  <small class=\"author\">someone</small></div>\
                  <div class=\"quote\"><span class=\"text\">second</span></div>";
    let extraction = extract_page(markup, &rules());
    assert_eq!(extraction.quotes.len(), 1);
    assert_eq!(extraction.skipped, 1);
    assert_eq!(extraction.quotes[0].text(), "first");
    assert_eq!(extraction.quotes[0].author(), "someone");
    assert!(extraction.quotes[0].tags().is_empty());
}

#[test]
fn container_without_text_is_skipped_and_siblings_follow() {
    let markup = "<div class=\"quote\"><small class=\"author\">nobody</small></div>\
                  <div class=\"quote\"><span class=\"text\">kept</span>\
                  <small class=\"author\">somebody</small><a class=\"tag\">t</a></div>";
    let extraction = extract_page(markup, &rules());
    assert_eq!(extraction.skipped, 1);
    assert_eq!(extraction.quotes.len(), 1);
    assert_eq!(extraction.quotes[0].text(), "kept");
    assert_eq!(extraction.quotes[0].author(), "somebody");
    assert_eq!(extraction.quotes[0].tags(), &strings(&["t"]));
}

#[test]
fn extraction_twice_gives_equal_records() {
    let markup = "<html><body><div class=\"quote\">\
                  <span class=\"text\">a <b id=\"k\" class=\"z\" title=\"w\">b</b></span>\
                  <small class=\"author\">c</small><a class=\"tag\">d</a></div>\
                  <div class=\"quote\"><span class=\"text\">e</span>\
                  <small class=\"author\">f</small></div></body></html>";
    let rules = rules();
    let first = parse_quote_html(markup, &rules);
    let second = parse_quote_html(markup, &rules);
    assert_eq!(first.len(), 2);
    assert_eq!(first.len(), second.len());
    for (a, b) in first.iter().zip(second.iter()) {
        assert_eq!(a.text(), b.text());
        assert_eq!(a.author(), b.author());
        assert_eq!(a.tags(), b.tags());
    }
}

#[test]
fn page_without_containers_gives_nothing() {
    let extraction = extract_page("<html><body><p class=\"text\">loose</p></body></html>", &rules());
    assert!(extraction.quotes.is_empty());
    assert_eq!(extraction.skipped, 0);
    assert!(parse_quote_html("", &rules()).is_empty());
}

#[test]
fn first_match_of_text_and_author_is_taken() {
    let markup = "<div class=\"quote\"><span class=\"text\">one</span><span class=\"text\">two</span>\
                  <small class=\"author\">x</small><small class=\"author\">y</small></div>";
    let quotes = parse_quote_html(markup, &rules());
    assert_eq!(quotes.len(), 1);
    assert_eq!(quotes[0].text(), "one");
    assert_eq!(quotes[0].author(), "x");
}

#[test]
fn fields_hold_inner_markup() {
    let markup = "<div class=\"quote\"><span class=\"text\">a <b>bold</b> word</span>\
                  <small class=\"author\"><i>A</i></small></div>";
    let quotes = parse_quote_html(markup, &rules());
    assert_eq!(quotes.len(), 1);
    assert_eq!(quotes[0].text(), "a <b>bold</b> word");
    assert_eq!(quotes[0].author(), "<i>A</i>");
}

#[test]
fn matches_outside_a_container_do_not_count() {
    let markup = "<span class=\"text\">outside</span><a class=\"tag\">loose</a>\
                  <div class=\"quote\"><span class=\"text\">inside</span>\
                  <small class=\"author\">A</small><a class=\"tag\">t</a></div>";
    let found = scan_page(markup, &rules());
    assert_eq!(found.len(), 1);
    assert_eq!(found[0].text, strings(&["inside"]));
    assert_eq!(found[0].author, strings(&["A"]));
    assert_eq!(found[0].tags, strings(&["t"]));
}

#[test]
fn scan_page_lists_every_match_of_every_container() {
    let markup = "<div class=\"quote\"><span class=\"text\">1</span><span class=\"text\">2</span>\
                  <a class=\"tag\">p</a><a class=\"tag\">q</a><a class=\"tag\">r</a></div>\
                  <div class=\"quote\"><small class=\"author\">B</small></div>";
    let found = scan_page(markup, &rules());
    assert_eq!(found.len(), 2);
    assert_eq!(found[0].text, strings(&["1", "2"]));
    assert!(found[0].author.is_empty());
    assert_eq!(found[0].tags, strings(&["p", "q", "r"]));
    assert!(found[1].text.is_empty());
    assert_eq!(found[1].author, strings(&["B"]));
    assert!(found[1].tags.is_empty());
}

#[test]
fn record_from_matches_takes_first_text_first_author_all_tags() {
    let quote = match Quote::from_matches(matches_of(&["T", "U"], &["A", "B"], &["x", "y", "x"])) {
        Ok(quote) => quote,
        Err(e) => panic!("unexpected {:?}", e),
    };
    assert_eq!(quote.text(), "T");
    assert_eq!(quote.author(), "A");
    assert_eq!(quote.tags(), &strings(&["x", "y", "x"]));
}

#[test]
fn record_from_matches_without_text_is_missing_text() {
    assert!(matches!(
        Quote::from_matches(matches_of(&[], &["A"], &["x"])),
        Err(Malformed::MissingText)
    ));
    assert!(matches!(Quote::from_matches(matches_of(&[], &[], &[])), Err(Malformed::MissingText)));
}

#[test]
fn record_from_matches_without_author_is_missing_author() {
    assert!(matches!(
        Quote::from_matches(matches_of(&["T"], &[], &["x"])),
        Err(Malformed::MissingAuthor)
    ));
}

#[test]
fn collect_records_keeps_order_and_counts_skipped() {
    let found = vec![
        matches_of(&["a"], &["A"], &[]),
        matches_of(&[], &["B"], &["lost"]),
        matches_of(&["c"], &["C"], &["t1", "t2"]),
        matches_of(&["d"], &[], &[]),
        matches_of(&["e"], &["E"], &["t3"]),
    ];
    let extraction = collect_records(found);
    assert_eq!(extraction.skipped, 2);
    assert_eq!(extraction.quotes.len(), 3);
    assert_eq!(extraction.quotes[0].text(), "a");
    assert_eq!(extraction.quotes[1].text(), "c");
    assert_eq!(extraction.quotes[1].author(), "C");
    assert_eq!(extraction.quotes[1].tags(), &strings(&["t1", "t2"]));
    assert_eq!(extraction.quotes[2].text(), "e");
}

#[test]
fn collect_records_of_nothing_is_empty() {
    let extraction = collect_records(Vec::new());
    assert!(extraction.quotes.is_empty());
    assert_eq!(extraction.skipped, 0);
}

#[test]
fn rules_report_the_first_field_whose_pattern_is_no_selector() {
    assert!(matches!(SelectorRules::compile("<", ".t", ".a", ".g"), Err(Field::Container)));
    assert!(matches!(SelectorRules::compile(".q", "<", "<", ".g"), Err(Field::Text)));
    assert!(matches!(SelectorRules::compile(".q", ".t", "<", "<"), Err(Field::Author)));
    assert!(matches!(SelectorRules::compile(".q", ".t", ".a", "<"), Err(Field::Tag)));
    assert!(SelectorRules::compile(".q", ".t", ".a", ".g").is_ok());
}

#[test]
fn compiled_rules_select_by_their_own_patterns() {
    let rules = match SelectorRules::compile("li", "em", "strong", "code") {
        Ok(rules) => rules,
        Err(field) => panic!("{:?}", field),
    };
    let markup = "<ul><li><em>said</em><strong>by</strong><code>k</code></li>\
                  <li class=\"quote\"><span class=\"text\">other</span></li></ul>";
    let extraction = extract_page(markup, &rules);
    assert_eq!(extraction.quotes.len(), 1);
    assert_eq!(extraction.skipped, 1);
    assert_eq!(extraction.quotes[0].text(), "said");
    assert_eq!(extraction.quotes[0].author(), "by");
    assert_eq!(extraction.quotes[0].tags(), &strings(&["k"]));
}

#[test]
fn quote_clone_is_equal_field_by_field() {
    let quote = Quote::new("T".to_string(), "A".to_string(), strings(&["x", "y"]));
    let copy = quote.clone();
    assert_eq!(copy.text(), "T");
    assert_eq!(copy.author(), "A");
    assert_eq!(copy.tags(), &strings(&["x", "y"]));
    assert_eq!(quote.text(), copy.text());
}
