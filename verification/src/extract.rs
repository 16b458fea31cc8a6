//! Extraction of quote records from one page's markup.
//!
//! A page holds zero or more record containers. Within each container the
//! first match of the text rule and the first match of the author rule give
//! the record's text and author, and all matches of the tag rule give its
//! tags. A container without a text match or without an author match is
//! malformed: it is skipped and counted, and its siblings are still extracted.

use crate::markup::{
    compile_selector, compiled_selector, document_matches, element_inner_html, element_matches,
    inner_html, parse_document, parsed_document, select_in_document, select_in_element,
};
use crate::record::{Quote, QuoteView};
use scraper::{ElementRef, Selector};
use vstd::prelude::*;

verus! {

/// The semantic fields that the selector rules name.
#[derive(Debug, Clone, Copy, PartialEq, Eq, Structural)]
pub enum Field {
    Container,
    Text,
    Author,
    Tag,
}

/// Why a record container yields no record.
#[derive(Debug, Clone, Copy, PartialEq, Eq, Structural)]
pub enum Malformed {
    /// Nothing in the container matches the text rule.
    MissingText,
    /// Something matches the text rule, but nothing matches the author rule.
    MissingAuthor,
}

/// The compiled selector of each semantic field. Built once and passed by
/// reference to every extraction.
pub struct SelectorRules {
    pub container: Selector,
    pub text: Selector,
    pub author: Selector,
    pub tag: Selector,
}

/// What compiling four patterns gives: the rules, or the first field, in the
/// order container, text, author, tag, whose pattern is not a selector.
pub open spec fn compiled_rules(
    container: Seq<char>,
    text: Seq<char>,
    author: Seq<char>,
    tag: Seq<char>,
) -> Result<SelectorRules, Field> {
    if compiled_selector(container) is None {
        Err(Field::Container)
    } else if compiled_selector(text) is None {
        Err(Field::Text)
    } else if compiled_selector(author) is None {
        Err(Field::Author)
    } else if compiled_selector(tag) is None {
        Err(Field::Tag)
    } else {
        Ok(
            SelectorRules {
                container: compiled_selector(container)->0,
                text: compiled_selector(text)->0,
                author: compiled_selector(author)->0,
                tag: compiled_selector(tag)->0,
            },
        )
    }
}

impl SelectorRules {
    /// Compiles one pattern per field.
    pub fn compile(container: &str, text: &str, author: &str, tag: &str) -> (rules: Result<
        SelectorRules,
        Field,
    >)
        ensures
            rules == compiled_rules(container@, text@, author@, tag@),
    {
        let container = match compile_selector(container) {
            Ok(selector) => selector,
            Err(_) => {
                return Err(Field::Container);
            },
        };
        let text = match compile_selector(text) {
            Ok(selector) => selector,
            Err(_) => {
                return Err(Field::Text);
            },
        };
        let author = match compile_selector(author) {
            Ok(selector) => selector,
            Err(_) => {
                return Err(Field::Author);
            },
        };
        let tag = match compile_selector(tag) {
            Ok(selector) => selector,
            Err(_) => {
                return Err(Field::Tag);
            },
        };
        Ok(SelectorRules { container, text, author, tag })
    }

    /// The rules of the quote listing: the classes `quote`, `text`, `author`
    /// and `tag`.
    pub fn standard() -> (rules: Result<SelectorRules, Field>)
        ensures
            rules == compiled_rules(".quote"@, ".text"@, ".author"@, ".tag"@),
    {
        SelectorRules::compile(".quote", ".text", ".author", ".tag")
    }
}

/// What the rules match inside one record container: the inner markup of each
/// match, per field, in match order.
pub struct FieldMatches {
    pub text: Vec<String>,
    pub author: Vec<String>,
    pub tags: Vec<String>,
}

/// The mathematical value of a [`FieldMatches`].
pub struct FieldMatchesView {
    pub text: Seq<Seq<char>>,
    pub author: Seq<Seq<char>>,
    pub tags: Seq<Seq<char>>,
}

impl View for FieldMatches {
    type V = FieldMatchesView;

    open spec fn view(&self) -> FieldMatchesView {
        FieldMatchesView {
            text: self.text.deep_view(),
            author: self.author.deep_view(),
            tags: self.tags.deep_view(),
        }
    }
}

impl DeepView for FieldMatches {
    type V = FieldMatchesView;

    open spec fn deep_view(&self) -> FieldMatchesView {
        self@
    }
}

impl FieldMatchesView {
    /// A container is well formed when it has a text match and an author match.
    pub open spec fn well_formed(self) -> bool {
        self.text.len() > 0 && self.author.len() > 0
    }

    /// The record of a well-formed container.
    pub open spec fn record(self) -> QuoteView {
        QuoteView { text: self.text[0], author: self.author[0], tags: self.tags }
    }

    /// The record of a container, or why it has none.
    pub open spec fn checked_record(self) -> Result<QuoteView, Malformed> {
        if self.text.len() == 0 {
            Err(Malformed::MissingText)
        } else if self.author.len() == 0 {
            Err(Malformed::MissingAuthor)
        } else {
            Ok(self.record())
        }
    }
}

/// The records of the well-formed containers, in container order.
pub open spec fn assembled(found: Seq<FieldMatchesView>) -> Seq<QuoteView> {
    found.filter(|m: FieldMatchesView| m.well_formed()).map_values(|m: FieldMatchesView| m.record())
}

/// What the rules match inside one container element.
pub open spec fn container_fields(
    container: ElementRef<'static>,
    rules: SelectorRules,
) -> FieldMatchesView {
    FieldMatchesView {
        text: element_matches(container, rules.text).map_values(
            |e: ElementRef<'static>| element_inner_html(e),
        ),
        author: element_matches(container, rules.author).map_values(
            |e: ElementRef<'static>| element_inner_html(e),
        ),
        tags: element_matches(container, rules.tag).map_values(
            |e: ElementRef<'static>| element_inner_html(e),
        ),
    }
}

/// What the rules match in a page: one entry per record container.
pub open spec fn page_fields(markup: Seq<char>, rules: SelectorRules) -> Seq<FieldMatchesView> {
    document_matches(parsed_document(markup), rules.container).map_values(
        |c: ElementRef<'static>| container_fields(c, rules),
    )
}

/// The records that a page's markup holds under the rules.
pub open spec fn extracted(markup: Seq<char>, rules: SelectorRules) -> Seq<QuoteView> {
    assembled(page_fields(markup, rules))
}

/// The outcome of extracting one page.
pub struct Extraction {
    /// The records of the well-formed containers, in container order.
    pub quotes: Vec<Quote>,
    /// How many containers were malformed and left out.
    pub skipped: usize,
}

impl Quote {
    /// Builds the record of one container from what the rules matched in it.
    pub fn from_matches(found: FieldMatches) -> (quote: Result<Quote, Malformed>)
        ensures
            match quote {
                Ok(q) => found@.checked_record() == Ok::<QuoteView, Malformed>(q@),
                Err(e) => found@.checked_record() == Err::<QuoteView, Malformed>(e),
            },
    {
        if found.text.len() == 0 {
            return Err(Malformed::MissingText);
        }
        if found.author.len() == 0 {
            return Err(Malformed::MissingAuthor);
        }
        let text = found.text[0].clone();
        let author = found.author[0].clone();
        Ok(Quote::new(text, author, found.tags))
    }
}

/// Adding one container adds its record if it is well formed, and nothing
/// otherwise.
pub proof fn lemma_assembled_push(found: Seq<FieldMatchesView>, last: FieldMatchesView)
    ensures
        assembled(found.push(last)) == if last.well_formed() {
            assembled(found).push(last.record())
        } else {
            assembled(found)
        },
{
    let keep = |m: FieldMatchesView| m.well_formed();
    let make = |m: FieldMatchesView| m.record();
    found.lemma_filter_push(last, keep);
    if last.well_formed() {
        found.filter(keep).lemma_push_map_commute(make, last);
    }
}

/// Turns the matches of each container of a page into records, leaving out
/// and counting the malformed containers.
pub fn collect_records(found: Vec<FieldMatches>) -> (extraction: Extraction)
    ensures
        extraction.quotes.deep_view() == assembled(found.deep_view()),
        extraction.quotes.len() + extraction.skipped == found.len(),
{
    let ghost all = found.deep_view();
    let mut quotes: Vec<Quote> = Vec::new();
    let mut skipped: usize = 0;
    let total: usize = found.len();
    for item in it: found
        invariant
            all.len() == total,
            all.len() == it.seq().len(),
            forall|k: int| 0 <= k < all.len() ==> all[k] == (#[trigger] it.seq()[k])@,
            quotes.deep_view() == assembled(all.take(it.index() as int)),
            quotes.len() + skipped == it.index(),
    {
        let ghost done = all.take(it.index() as int);
        proof {
            lemma_assembled_push(done, item@);
            assert(all.take(it.index() + 1) == done.push(item@));
        }
        let ghost before = quotes.deep_view();
        match Quote::from_matches(item) {
            Ok(q) => {
                quotes.push(q);
                assert(quotes.deep_view() == before.push(q@));
            },
            Err(_) => {
                skipped = skipped + 1;
            },
        }
    }
    proof {
        assert(all.take(all.len() as int) == all);
    }
    Extraction { quotes, skipped }
}

/// The inner markup of each element, in order.
fn inner_html_of_each(elements: &Vec<ElementRef<'_>>) -> (markup: Vec<String>)
    ensures
        markup.deep_view() == elements@.map_values(|e: ElementRef<'static>| element_inner_html(e)),
{
    let mut markup: Vec<String> = Vec::new();
    let mut i: usize = 0;
    while i < elements.len()
        invariant
            i <= elements.len(),
            markup.len() == i,
            forall|k: int|
                0 <= k < i ==> (#[trigger] markup[k])@ == element_inner_html(elements[k]),
        decreases elements.len() - i,
    {
        markup.push(inner_html(&elements[i]));
        i = i + 1;
    }
    markup
}

/// Applies the three field rules inside one container.
fn scan_container(container: &ElementRef<'_>, rules: &SelectorRules) -> (found: FieldMatches)
    ensures
        found@ == container_fields(*container, *rules),
{
    let text = inner_html_of_each(&select_in_element(container, &rules.text));
    let author = inner_html_of_each(&select_in_element(container, &rules.author));
    let tags = inner_html_of_each(&select_in_element(container, &rules.tag));
    FieldMatches { text, author, tags }
}

/// Parses a page and applies the rules to each of its record containers.
pub fn scan_page(markup: &str, rules: &SelectorRules) -> (found: Vec<FieldMatches>)
    ensures
        found.deep_view() == page_fields(markup@, *rules),
{
    let document = parse_document(markup);
    let containers = select_in_document(&document, &rules.container);
    let mut found: Vec<FieldMatches> = Vec::new();
    let mut i: usize = 0;
    while i < containers.len()
        invariant
            i <= containers.len(),
            found.len() == i,
            forall|k: int|
                0 <= k < i ==> (#[trigger] found[k])@ == container_fields(containers[k], *rules),
        decreases containers.len() - i,
    {
        found.push(scan_container(&containers[i], rules));
        i = i + 1;
    }
    found
}

/// Extracts the records of one page and counts its malformed containers.
pub fn extract_page(markup: &str, rules: &SelectorRules) -> (extraction: Extraction)
    ensures
        extraction.quotes.deep_view() == extracted(markup@, *rules),
        extraction.quotes.len() + extraction.skipped == page_fields(markup@, *rules).len(),
{
    collect_records(scan_page(markup, rules))
}

/// Extracts the records of one page.
pub fn parse_quote_html(html: &str, rules: &SelectorRules) -> (quotes: Vec<Quote>)
    ensures
        quotes.deep_view() == extracted(html@, *rules),
{
    extract_page(html, rules).quotes
}

} // verus!
