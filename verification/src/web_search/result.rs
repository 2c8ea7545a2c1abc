//! Results of a web search.

use vstd::prelude::*;

verus! {

/// One result of a web search.
#[derive(Debug, PartialEq, Eq)]
pub struct SearchResult {
    /// Title of the page.
    pub title: String,
    /// Address of the page. Empty where the result is an answer and no page.
    pub url: String,
    /// Text that goes with the result.
    pub snippet: String,
    /// Name of the search engine.
    pub source: String,
}

/// The texts of a result.
pub struct ResultTexts {
    pub title: Seq<char>,
    pub url: Seq<char>,
    pub snippet: Seq<char>,
    pub source: Seq<char>,
}

impl View for SearchResult {
    type V = ResultTexts;

    open spec fn view(&self) -> ResultTexts {
        ResultTexts {
            title: self.title@,
            url: self.url@,
            snippet: self.snippet@,
            source: self.source@,
        }
    }
}

impl Clone for SearchResult {
    fn clone(&self) -> (r: Self)
        ensures
            r@ == self@,
    {
        SearchResult {
            title: self.title.clone(),
            url: self.url.clone(),
            snippet: self.snippet.clone(),
            source: self.source.clone(),
        }
    }
}

/// The texts of a list of results.
pub open spec fn result_texts(results: Seq<SearchResult>) -> Seq<ResultTexts> {
    Seq::new(results.len(), |i: int| results[i]@)
}

// ── Laws ─────────────────────────────────────────────────────────

/// The texts of results are those of the results, one by one: title, address, snippet and source.
pub proof fn texts_are_those_of_the_results(results: Seq<SearchResult>, i: int)
    ensures
        result_texts(results).len() == results.len(),
        0 <= i < results.len() ==> result_texts(results)[i].title == results[i].title@
            && result_texts(results)[i].url == results[i].url@ && result_texts(results)[i].snippet
            == results[i].snippet@ && result_texts(results)[i].source == results[i].source@,
{
}

} // verus!
