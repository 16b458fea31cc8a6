//! The record that the pipeline extracts.

use vstd::prelude::*;

verus! {

/// One extracted quote: its text, its author and its tags in document order.
/// A record does not change once it is built.
#[derive(Debug)]
pub struct Quote {
    text: String,
    author: String,
    tags: Vec<String>,
}

/// The mathematical value of a [`Quote`].
pub struct QuoteView {
    pub text: Seq<char>,
    pub author: Seq<char>,
    pub tags: Seq<Seq<char>>,
}

impl View for Quote {
    type V = QuoteView;

    closed spec fn view(&self) -> QuoteView {
        QuoteView { text: self.text@, author: self.author@, tags: self.tags.deep_view() }
    }
}

impl DeepView for Quote {
    type V = QuoteView;

    open spec fn deep_view(&self) -> QuoteView {
        self@
    }
}

/// Copies a list of strings.
pub fn clone_strings(items: &Vec<String>) -> (copy: Vec<String>)
    ensures
        copy.deep_view() == items.deep_view(),
{
    let mut copy: Vec<String> = Vec::new();
    let mut i: usize = 0;
    while i < items.len()
        invariant
            i <= items.len(),
            copy.len() == i,
            forall|k: int| 0 <= k < i ==> (#[trigger] copy[k])@ == items[k]@,
        decreases items.len() - i,
    {
        copy.push(items[i].clone());
        i = i + 1;
    }
    assert(copy.deep_view() =~= items.deep_view());
    copy
}

impl Clone for Quote {
    fn clone(&self) -> (copy: Quote)
        ensures
            copy@ == self@,
    {
        Quote {
            text: self.text.clone(),
            author: self.author.clone(),
            tags: clone_strings(&self.tags),
        }
    }
}

impl Quote {
    /// Builds a record from its three fields.
    pub fn new(text: String, author: String, tags: Vec<String>) -> (quote: Quote)
        ensures
            quote@ == (QuoteView { text: text@, author: author@, tags: tags.deep_view() }),
    {
        Quote { text, author, tags }
    }

    /// The text of the quote.
    pub fn text(&self) -> (text: &String)
        ensures
            text@ == self@.text,
    {
        &self.text
    }

    /// The author of the quote.
    pub fn author(&self) -> (author: &String)
        ensures
            author@ == self@.author,
    {
        &self.author
    }

    /// The tags of the quote, in document order.
    pub fn tags(&self) -> (tags: &Vec<String>)
        ensures
            tags.deep_view() == self@.tags,
    {
        &self.tags
    }
}

} // verus!
