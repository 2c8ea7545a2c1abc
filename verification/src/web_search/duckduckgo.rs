//! DuckDuckGo: the pages of its HTML search.

use vstd::prelude::*;
use vstd::utf8::encode_utf8;

use crate::text::{
    begins_with, chars_of, contains, contains_text, find, find_in, last_occurrence_is_found,
    lemma_find_in, lemma_find_in_is, occurs_at, rfind, rfind_in, starts_with, string_of, trim_of, trimmed,
};
use crate::web_search::html::{
    decoded_text_is_not_empty, dereferenced, html_decode, strip_html_tags, tag_free,
};
use crate::web_search::percent::{
    decode_or_keep, decoded_or_kept, decoding_undoes_encoding, encoded_text_is_safe_in_a_query,
    percent_encoded,
};
use crate::web_search::result::{result_texts, ResultTexts, SearchResult};

verus! {

/// What marks the link of a result in a page.
pub const LINK_MARKER: &'static str = "class=\"result__a\"";

/// What marks the snippet of a result in a page.
pub const SNIPPET_MARKER: &'static str = "class=\"result__snippet\"";

/// What marks the address that is shown for a result in a page.
pub const URL_MARKER: &'static str = "class=\"result__url\"";

/// The name of the search engine in its results.
pub const DDG_SOURCE: &'static str = "DuckDuckGo";

// ── Addresses ────────────────────────────────────────────────────

/// The address that a link leads to. A redirect holds it, percent-encoded, in its parameter
/// `uddg`; any other link is the address itself.
pub open spec fn link_target(raw: Seq<char>) -> Seq<char> {
    match find_in(raw, "uddg="@, 0, raw.len() as int) {
        Some(i) => {
            let from = i + "uddg="@.len();
            let to = match find_in(raw, "&"@, from as int, raw.len() as int) {
                Some(end) => end,
                None => raw.len() as int,
            };
            decoded_or_kept(raw.subrange(from as int, to))
        },
        None => raw,
    }
}

/// The address that a link of a result page leads to.
pub fn extract_ddg_url(raw: &str) -> (r: String)
    ensures
        r@ == link_target(raw@),
{
    let v = chars_of(raw);
    proof {
        reveal_strlit("uddg=");
    }
    match find(&v, "uddg=", 0, v.len()) {
        Some(i) => {
            let from: usize = i + 5;
            let to: usize = match find(&v, "&", from, v.len()) {
                Some(end) => end,
                None => v.len(),
            };
            let encoded = string_of(&v, from, to);
            decode_or_keep(encoded.as_str())
        },
        None => raw.to_owned(),
    }
}

// ── Result pages ─────────────────────────────────────────────────

/// A part of a page, from one position up to another.
pub struct Span {
    pub from: int,
    pub to: int,
}

/// Where the address stands in the opening tag of the link that is marked at `at`.
pub open spec fn href_span(html: Seq<char>, at: int) -> Option<Span> {
    let end = html.len() as int;
    match rfind_in(html, "<a "@, at) {
        Some(open) => match find_in(html, ">"@, open, end) {
            Some(close) => match find_in(html, "href=\""@, open, close) {
                Some(href) => {
                    let from = href + "href=\""@.len();
                    match find_in(html, "\""@, from, end) {
                        Some(to) => Some(Span { from, to }),
                        None => None,
                    }
                },
                None => None,
            },
            None => None,
        },
        None => None,
    }
}

/// What stands in the element whose opening tag is marked at `at`, up to `closing`.
pub open spec fn content_span(html: Seq<char>, at: int, closing: Seq<char>) -> Option<Span> {
    let end = html.len() as int;
    match find_in(html, ">"@, at, end) {
        Some(close) => match find_in(html, closing, close + 1, end) {
            Some(to) => Some(Span { from: close + 1, to }),
            None => None,
        },
        None => None,
    }
}

/// The earlier of two positions that may be missing.
pub open spec fn earlier(a: Option<int>, b: Option<int>) -> Option<int> {
    match (a, b) {
        (Some(x), Some(y)) => Some(
            if x <= y {
                x
            } else {
                y
            },
        ),
        (Some(x), None) => Some(x),
        (None, b) => b,
    }
}

/// Where the text of a snippet ends that begins at `from`: at the first closing tag of a link, a
/// span or a block.
pub open spec fn snippet_end(html: Seq<char>, from: int) -> Option<int> {
    let end = html.len() as int;
    earlier(
        find_in(html, "</a>"@, from, end),
        earlier(find_in(html, "</span>"@, from, end), find_in(html, "</div>"@, from, end)),
    )
}

/// The text of the first snippet after `from`. Empty where there is none.
pub open spec fn snippet_after(html: Seq<char>, from: int) -> Seq<char> {
    let end = html.len() as int;
    match find_in(html, SNIPPET_MARKER@, from, end) {
        Some(at) => match find_in(html, ">"@, at, end) {
            Some(close) => match snippet_end(html, close + 1) {
                Some(to) => if to > close + 1 {
                    tag_free(html.subrange(close + 1, to))
                } else {
                    Seq::empty()
                },
                None => Seq::empty(),
            },
            None => Seq::empty(),
        },
        None => Seq::empty(),
    }
}

/// The first address that is shown after `from`. Empty where there is none.
pub open spec fn shown_url_after(html: Seq<char>, from: int) -> Seq<char> {
    match find_in(html, URL_MARKER@, from, html.len() as int) {
        Some(at) => match content_span(html, at, "<"@) {
            Some(span) => trimmed(html.subrange(span.from, span.to)),
            None => Seq::empty(),
        },
        None => Seq::empty(),
    }
}

/// The result whose link leads to what stands at `href` and is titled by what stands at `title`.
/// There is none without a title or an address, nor for a script.
pub open spec fn page_result(html: Seq<char>, href: Span, title: Span) -> Option<ResultTexts> {
    let text = tag_free(html.subrange(title.from, title.to));
    let url = link_target(html.subrange(href.from, href.to));
    let snippet = snippet_after(html, title.to);
    if text.len() > 0 && url.len() > 0 && !begins_with(url, "javascript:"@) {
        Some(
            ResultTexts {
                title: dereferenced(text, 0),
                url,
                snippet: if snippet.len() == 0 {
                    shown_url_after(html, title.to)
                } else {
                    dereferenced(snippet, 0)
                },
                source: DDG_SOURCE@,
            },
        )
    } else {
        None
    }
}

/// The first `max` results of a page that are marked at or after `pos`. A marker without a whole
/// link is passed over.
pub open spec fn page_results(html: Seq<char>, pos: int, max: nat) -> Seq<ResultTexts>
    decreases html.len() - pos,
{
    if max == 0 || pos < 0 || pos > html.len() {
        Seq::empty()
    } else {
        match find_in(html, LINK_MARKER@, pos, html.len() as int) {
            Some(at) => {
                proof {
                    reveal_strlit("class=\"result__a\"");
                    lemma_find_in(html, LINK_MARKER@, pos, html.len() as int);
                    lemma_content_span(html, at, "</a>"@);
                }
                match (href_span(html, at), content_span(html, at, "</a>"@)) {
                    (Some(href), Some(title)) => match page_result(html, href, title) {
                        Some(r) => seq![r] + page_results(html, title.to, (max - 1) as nat),
                        None => page_results(html, title.to, max),
                    },
                    _ => page_results(html, at + LINK_MARKER@.len(), max),
                }
            },
            None => Seq::empty(),
        }
    }
}

/// What stands in an element lies behind its mark, in the page.
pub proof fn lemma_content_span(html: Seq<char>, at: int, closing: Seq<char>)
    requires
        0 <= at <= html.len(),
    ensures
        content_span(html, at, closing) matches Some(span) ==> at < span.from <= span.to
            <= html.len(),
{
    reveal_strlit(">");
    lemma_find_in(html, ">"@, at, html.len() as int);
    if let Some(close) = find_in(html, ">"@, at, html.len() as int) {
        lemma_find_in(html, closing, close + 1, html.len() as int);
    }
}

/// Whether a span of a page that is held as indices is the one that is meant.
spec fn same_span(found: Option<(usize, usize)>, span: Option<Span>) -> bool {
    match (found, span) {
        (Some((from, to)), Some(s)) => from == s.from && to == s.to,
        (None, None) => true,
        _ => false,
    }
}

fn find_href(html: &Vec<char>, at: usize) -> (r: Option<(usize, usize)>)
    requires
        at <= html.len(),
    ensures
        same_span(r, href_span(html@, at as int)),
        r matches Some((from, to)) ==> from <= to <= html.len(),
{
    proof {
        reveal_strlit("href=\"");
    }
    match rfind(html, "<a ", at) {
        Some(open) => match find(html, ">", open, html.len()) {
            Some(close) => match find(html, "href=\"", open, close) {
                Some(href) => {
                    let from: usize = href + 6;
                    match find(html, "\"", from, html.len()) {
                        Some(to) => Some((from, to)),
                        None => None,
                    }
                },
                None => None,
            },
            None => None,
        },
        None => None,
    }
}

fn find_content(html: &Vec<char>, at: usize, closing: &str) -> (r: Option<(usize, usize)>)
    requires
        at <= html.len(),
    ensures
        same_span(r, content_span(html@, at as int, closing@)),
        r matches Some((from, to)) ==> at < from <= to <= html.len(),
{
    proof {
        reveal_strlit(">");
        lemma_content_span(html@, at as int, closing@);
    }
    match find(html, ">", at, html.len()) {
        Some(close) => {
            let from: usize = close + 1;
            match find(html, closing, from, html.len()) {
                Some(to) => Some((from, to)),
                None => None,
            }
        },
        None => None,
    }
}

/// Whether a position that is held as an index is the one that is meant.
spec fn same_position(found: Option<usize>, position: Option<int>) -> bool {
    match (found, position) {
        (Some(i), Some(p)) => i == p,
        (None, None) => true,
        _ => false,
    }
}

fn earlier_of(a: Option<usize>, b: Option<usize>) -> (r: Option<usize>)
    ensures
        forall|x: Option<int>, y: Option<int>|
            same_position(a, x) && same_position(b, y) ==> same_position(
                r,
                #[trigger] earlier(x, y),
            ),
        r matches Some(i) ==> a == Some(i) || b == Some(i),
{
    match (a, b) {
        (Some(x), Some(y)) => if x <= y {
            Some(x)
        } else {
            Some(y)
        },
        (Some(x), None) => Some(x),
        (None, b) => b,
    }
}

fn find_snippet(html: &Vec<char>, from: usize) -> (r: String)
    requires
        from <= html.len(),
    ensures
        r@ == snippet_after(html@, from as int),
{
    let end = html.len();
    proof {
        reveal_strlit(">");
    }
    if let Some(at) = find(html, SNIPPET_MARKER, from, end) {
        if let Some(close) = find(html, ">", at, end) {
            let start: usize = close + 1;
            let a = find(html, "</a>", start, end);
            let b = find(html, "</span>", start, end);
            let c = find(html, "</div>", start, end);
            if let Some(to) = earlier_of(a, earlier_of(b, c)) {
                assert(same_position(Some(to), snippet_end(html@, start as int)));
                if to > start {
                    let fragment = string_of(html, start, to);
                    return strip_html_tags(fragment.as_str());
                }
            }
        }
    }
    String::new()
}

fn find_shown_url(html: &Vec<char>, from: usize) -> (r: String)
    requires
        from <= html.len(),
    ensures
        r@ == shown_url_after(html@, from as int),
{
    if let Some(at) = find(html, URL_MARKER, from, html.len()) {
        if let Some((start, to)) = find_content(html, at, "<") {
            return trim_of(html, start, to);
        }
    }
    String::new()
}

/// The result of one link of a page, if there is one.
fn result_of(html: &Vec<char>, href: (usize, usize), title: (usize, usize)) -> (r: Option<
    SearchResult,
>)
    requires
        href.0 <= href.1 <= html.len(),
        title.0 <= title.1 <= html.len(),
    ensures
        match r {
            Some(found) => page_result(
                html@,
                Span { from: href.0 as int, to: href.1 as int },
                Span { from: title.0 as int, to: title.1 as int },
            ) == Some(found@),
            None => page_result(
                html@,
                Span { from: href.0 as int, to: href.1 as int },
                Span { from: title.0 as int, to: title.1 as int },
            ) is None,
        },
{
    let raw_url = string_of(html, href.0, href.1);
    let url = extract_ddg_url(raw_url.as_str());
    let fragment = string_of(html, title.0, title.1);
    let text = strip_html_tags(fragment.as_str());
    let snippet = chars_of(find_snippet(html, title.1).as_str());
    let shown_url = find_shown_url(html, title.1);
    let text_chars = chars_of(text.as_str());
    let url_chars = chars_of(url.as_str());
    if text_chars.len() > 0 && url_chars.len() > 0 && !starts_with(&url_chars, "javascript:") {
        let title_text = html_decode(text.as_str());
        let snippet_text = if snippet.len() == 0 {
            shown_url
        } else {
            let s = string_of(&snippet, 0, snippet.len());
            assert(snippet@.subrange(0, snippet@.len() as int) =~= snippet@);
            html_decode(s.as_str())
        };
        Some(
            SearchResult {
                title: title_text,
                url,
                snippet: snippet_text,
                source: DDG_SOURCE.to_owned(),
            },
        )
    } else {
        None
    }
}

/// Reads the first `max_results` results out of a page.
pub fn parse_ddg_results(html: &str, max_results: usize) -> (r: Vec<SearchResult>)
    ensures
        result_texts(r@) == page_results(html@, 0, max_results as nat),
{
    let page = chars_of(html);
    let mut results: Vec<SearchResult> = Vec::new();
    let mut pos: usize = 0;
    let ghost all = page_results(html@, 0, max_results as nat);
    assert(result_texts(results@) + all =~= all);
    while results.len() < max_results
        invariant
            page@ == html@,
            pos <= page.len(),
            results.len() <= max_results,
            all == page_results(html@, 0, max_results as nat),
            result_texts(results@) + page_results(
                html@,
                pos as int,
                (max_results - results.len()) as nat,
            ) == all,
        decreases page.len() - pos,
    {
        proof {
            reveal_strlit("class=\"result__a\"");
        }
        let at = match find(&page, LINK_MARKER, pos, page.len()) {
            Some(at) => at,
            None => {
                assert(result_texts(results@) + Seq::empty() =~= result_texts(results@));
                return results;
            },
        };
        match (find_href(&page, at), find_content(&page, at, "</a>")) {
            (Some(href), Some(title)) => {
                let ghost before = result_texts(results@);
                let ghost room = (max_results - results.len()) as nat;
                if let Some(found) = result_of(&page, href, title) {
                    let ghost texts = found@;
                    results.push(found);
                    assert(result_texts(results@) =~= before.push(texts));
                    let ghost rest = page_results(html@, title.1 as int, (room - 1) as nat);
                    assert(before.push(texts) + rest =~= before + (seq![texts] + rest));
                }
                pos = title.1;
            },
            _ => {
                pos = at + 17;
            },
        }
    }
    assert(result_texts(results@) + Seq::empty() =~= result_texts(results@));
    results
}

/// The homepage in place of results: the page names the homepage as its address, and nothing in it
/// marks a result.
pub open spec fn blocked_page(html: Seq<char>) -> bool {
    &&& contains_text(html, "rel=\"canonical\" href=\"https://duckduckgo.com/"@)
    &&& !contains_text(html, "result__a"@)
    &&& !contains_text(html, "result-link"@)
    &&& !contains_text(html, "result__snippet"@)
}

/// Whether a page is the homepage, which comes in place of results where a request is blocked.
pub fn is_ddg_blocked(html: &str) -> (r: bool)
    ensures
        r == blocked_page(html@),
{
    let page = chars_of(html);
    let has_canonical_home = contains(&page, "rel=\"canonical\" href=\"https://duckduckgo.com/");
    let has_no_results = !contains(&page, "result__a") && !contains(&page, "result-link")
        && !contains(&page, "result__snippet");
    has_canonical_home && has_no_results
}

// ── Laws ─────────────────────────────────────────────────────────

/// A page gives no more results than asked for. Each has a title and an address, which is no
/// script, and names the search engine.
pub proof fn page_results_are_usable(html: Seq<char>, pos: int, max: nat)
    ensures
        page_results(html, pos, max).len() <= max,
        forall|i: int|
            0 <= i < page_results(html, pos, max).len() ==> {
                let r = #[trigger] page_results(html, pos, max)[i];
                &&& r.title.len() > 0
                &&& r.url.len() > 0
                &&& !begins_with(r.url, "javascript:"@)
                &&& r.source == DDG_SOURCE@
            },
    decreases html.len() - pos,
{
    if max > 0 && 0 <= pos <= html.len() {
        lemma_find_in(html, LINK_MARKER@, pos, html.len() as int);
        if let Some(at) = find_in(html, LINK_MARKER@, pos, html.len() as int) {
            reveal_strlit("class=\"result__a\"");
            lemma_content_span(html, at, "</a>"@);
            match (href_span(html, at), content_span(html, at, "</a>"@)) {
                (Some(href), Some(title)) => match page_result(html, href, title) {
                    Some(r) => {
                        decoded_text_is_not_empty(tag_free(html.subrange(title.from, title.to)));
                        let rest = page_results(html, title.to, (max - 1) as nat);
                        page_results_are_usable(html, title.to, (max - 1) as nat);
                        assert forall|i: int| 0 <= i < page_results(html, pos, max).len() implies {
                            let r = #[trigger] page_results(html, pos, max)[i];
                            &&& r.title.len() > 0
                            &&& r.url.len() > 0
                            &&& !begins_with(r.url, "javascript:"@)
                            &&& r.source == DDG_SOURCE@
                        } by {
                            if i > 0 {
                                assert(page_results(html, pos, max)[i] == rest[i - 1]);
                            }
                        }
                    },
                    None => page_results_are_usable(html, title.to, max),
                },
                _ => page_results_are_usable(html, at + LINK_MARKER@.len(), max),
            }
        }
    }
}

/// Asking for fewer results gives the first of those that a larger limit gives.
pub proof fn smaller_limit_gives_the_first_results(html: Seq<char>, pos: int, few: nat, many: nat)
    requires
        few <= many,
    ensures
        page_results(html, pos, few) == (if page_results(html, pos, many).len() <= few {
            page_results(html, pos, many)
        } else {
            page_results(html, pos, many).take(few as int)
        }),
    decreases html.len() - pos,
{
    let fewer = page_results(html, pos, few);
    let more = page_results(html, pos, many);
    if few == 0 {
        assert(fewer =~= more.take(0));
    } else if 0 <= pos <= html.len() {
        lemma_find_in(html, LINK_MARKER@, pos, html.len() as int);
        if let Some(at) = find_in(html, LINK_MARKER@, pos, html.len() as int) {
            reveal_strlit("class=\"result__a\"");
            lemma_content_span(html, at, "</a>"@);
            match (href_span(html, at), content_span(html, at, "</a>"@)) {
                (Some(href), Some(title)) => match page_result(html, href, title) {
                    Some(r) => {
                        smaller_limit_gives_the_first_results(
                            html,
                            title.to,
                            (few - 1) as nat,
                            (many - 1) as nat,
                        );
                        let rest = page_results(html, title.to, (many - 1) as nat);
                        assert(more == seq![r] + rest);
                        if more.len() > few {
                            assert(more.take(few as int) =~= seq![r] + rest.take(few - 1));
                        }
                    },
                    None => smaller_limit_gives_the_first_results(html, title.to, few, many),
                },
                _ => smaller_limit_gives_the_first_results(
                    html,
                    at + LINK_MARKER@.len(),
                    few,
                    many,
                ),
            }
        }
    }
}

/// A page that marks no link gives no result.
pub proof fn page_without_links_gives_no_results(html: Seq<char>, pos: int, max: nat)
    requires
        !contains_text(html, LINK_MARKER@),
    ensures
        page_results(html, pos, max).len() == 0,
{
    if 0 <= pos <= html.len() {
        lemma_find_in(html, LINK_MARKER@, pos, html.len() as int);
        if let Some(at) = find_in(html, LINK_MARKER@, pos, html.len() as int) {
            assert(occurs_at(html, LINK_MARKER@, at));
        }
    }
}

/// What is taken for a blocked page would give no result.
pub proof fn blocked_page_gives_no_results(html: Seq<char>, max: nat)
    requires
        blocked_page(html),
    ensures
        page_results(html, 0, max).len() == 0,
{
    if contains_text(html, LINK_MARKER@) {
        reveal_strlit("class=\"result__a\"");
        reveal_strlit("result__a");
        let i = choose|i: int| occurs_at(html, LINK_MARKER@, i);
        let found = html.subrange(i, i + 17);
        assert(html.subrange(i + 7, i + 16) =~= found.subrange(7, 16));
        assert(found.subrange(7, 16) =~= "result__a"@);
        assert(occurs_at(html, "result__a"@, i + 7));
    }
    page_without_links_gives_no_results(html, 0, max);
}

/// A redirect leads to the address that was encoded into it, whatever parameters follow.
pub proof fn redirect_leads_to_its_target(
    before: Seq<char>,
    target: Seq<char>,
    after: Seq<char>,
)
    requires
        after.len() > 0 ==> after[0] == '&',
        forall|j: int|
            0 <= j < before.len() ==> !occurs_at(
                before + "uddg="@ + percent_encoded(encode_utf8(target)) + after,
                "uddg="@,
                j,
            ),
    ensures
        link_target(before + "uddg="@ + percent_encoded(encode_utf8(target)) + after) == target,
{
    reveal_strlit("uddg=");
    reveal_strlit("&");
    let enc = percent_encoded(encode_utf8(target));
    let raw = before + "uddg="@ + enc + after;
    let at = before.len() as int;
    let from = at + 5;
    let end = raw.len() as int;
    assert(raw.subrange(at, at + 5) =~= "uddg="@);
    lemma_find_in_is(raw, "uddg="@, 0, end, at);
    encoded_text_is_safe_in_a_query(encode_utf8(target));
    assert forall|j: int| from <= j < from + enc.len() implies !occurs_at(raw, "&"@, j) by {
        assert(raw[j] == enc[j - from]);
        if occurs_at(raw, "&"@, j) {
            assert(raw.subrange(j, j + 1)[0] == '&');
        }
    }
    let stop = from + enc.len();
    if after.len() > 0 {
        assert(raw[stop] == '&');
        assert(raw.subrange(stop, stop + 1) =~= "&"@);
        lemma_find_in_is(raw, "&"@, from, end, stop);
    } else {
        lemma_find_in(raw, "&"@, from, end);
        if let Some(j) = find_in(raw, "&"@, from, end) {
            assert(occurs_at(raw, "&"@, j));
        }
    }
    assert(raw.subrange(from, stop) =~= enc);
    decoding_undoes_encoding(target);
}

/// A link without the parameter `uddg` is the address itself, character for character.
pub proof fn direct_links_stay(raw: Seq<char>)
    requires
        !contains_text(raw, "uddg="@),
    ensures
        link_target(raw) == raw,
{
    lemma_find_in(raw, "uddg="@, 0, raw.len() as int);
    if let Some(i) = find_in(raw, "uddg="@, 0, raw.len() as int) {
        assert(occurs_at(raw, "uddg="@, i));
    }
}

/// The address that a redirect holds is the value of its first parameter `uddg`, up to the next
/// parameter, with its escapes decoded; nothing else of the redirect counts.
pub proof fn redirects_hold_their_target(before: Seq<char>, value: Seq<char>, after: Seq<char>)
    requires
        after.len() > 0 ==> after[0] == '&',
        !value.contains('&'),
        forall|j: int|
            0 <= j < before.len() ==> !occurs_at(before + "uddg="@ + value + after, "uddg="@, j),
    ensures
        link_target(before + "uddg="@ + value + after) == decoded_or_kept(value),
{
    reveal_strlit("uddg=");
    reveal_strlit("&");
    let raw = before + "uddg="@ + value + after;
    let at = before.len() as int;
    let from = at + 5;
    let end = raw.len() as int;
    assert(raw.subrange(at, at + 5) =~= "uddg="@);
    lemma_find_in_is(raw, "uddg="@, 0, end, at);
    assert forall|j: int| from <= j < from + value.len() implies !occurs_at(raw, "&"@, j) by {
        assert(raw[j] == value[j - from]);
        assert(value.contains(value[j - from]));
        if occurs_at(raw, "&"@, j) {
            assert(raw.subrange(j, j + 1)[0] == '&');
        }
    }
    let stop = from + value.len();
    if after.len() > 0 {
        assert(raw[stop] == '&');
        assert(raw.subrange(stop, stop + 1) =~= "&"@);
        lemma_find_in_is(raw, "&"@, from, end, stop);
    } else {
        lemma_find_in(raw, "&"@, from, end);
        if let Some(j) = find_in(raw, "&"@, from, end) {
            assert(occurs_at(raw, "&"@, j));
        }
    }
    assert(raw.subrange(from, stop) =~= value);
}

/// Whether `i` is the first position from `from` on at which `pat` stands.
pub open spec fn is_next(text: Seq<char>, pat: Seq<char>, from: int, i: int) -> bool {
    from <= i && occurs_at(text, pat, i) && (forall|j: int|
        from <= j < i ==> !occurs_at(text, pat, j))
}

/// Whether `i` is the last position at which `pat` stands before `end`.
pub open spec fn is_last_before(text: Seq<char>, pat: Seq<char>, end: int, i: int) -> bool {
    i + pat.len() <= end && occurs_at(text, pat, i) && (forall|j: int|
        i < j && j + pat.len() <= end ==> !occurs_at(text, pat, j))
}

/// Whether `pat` stands nowhere from `from` on.
pub open spec fn is_absent(text: Seq<char>, pat: Seq<char>, from: int) -> bool {
    forall|j: int| from <= j ==> !occurs_at(text, pat, j)
}

proof fn lemma_next(text: Seq<char>, pat: Seq<char>, from: int, i: int)
    requires
        0 <= from,
        is_next(text, pat, from, i),
    ensures
        find_in(text, pat, from, text.len() as int) == Some(i),
{
    lemma_find_in_is(text, pat, from, text.len() as int, i);
}

proof fn lemma_absent(text: Seq<char>, pat: Seq<char>, from: int)
    requires
        0 <= from,
        is_absent(text, pat, from),
    ensures
        find_in(text, pat, from, text.len() as int) is None,
{
    lemma_find_in(text, pat, from, text.len() as int);
    if let Some(i) = find_in(text, pat, from, text.len() as int) {
        assert(occurs_at(text, pat, i));
    }
}

/// A whole link gives its result: the address is what the attribute `href` of its opening tag
/// leads to, and the title is the text between its tags. It stands before all results that are
/// marked further on. A link without a title or an address, or to a script, gives none.
///
/// The link is marked at `at`, its opening tag runs from `open` to `close`, the value of the
/// attribute from `href` to `quote`, and its closing tag stands at `end`.
pub proof fn whole_links_give_results(
    html: Seq<char>,
    pos: int,
    max: nat,
    at: int,
    open: int,
    close: int,
    href: int,
    quote: int,
    end: int,
)
    requires
        0 <= pos,
        max > 0,
        is_next(html, "class=\"result__a\""@, pos, at),
        is_last_before(html, "<a "@, at, open),
        at < close,
        is_next(html, ">"@, open, close),
        is_next(html, "href=\""@, open, href - 6),
        href <= close,
        is_next(html, "\""@, href, quote),
        is_next(html, "</a>"@, close + 1, end),
    ensures
        ({
            let title = tag_free(html.subrange(close + 1, end));
            let url = link_target(html.subrange(href, quote));
            let found = page_results(html, pos, max);
            if title.len() == 0 || url.len() == 0 || begins_with(url, "javascript:"@) {
                found == page_results(html, end, max)
            } else {
                &&& found.len() > 0
                &&& found[0].title == dereferenced(title, 0)
                &&& found[0].url == url
                &&& found[0].source == "DuckDuckGo"@
                &&& found[0].snippet == (if snippet_after(html, end).len() == 0 {
                    shown_url_after(html, end)
                } else {
                    dereferenced(snippet_after(html, end), 0)
                })
                &&& found.drop_first() == page_results(html, end, (max - 1) as nat)
            }
        }),
{
    reveal_strlit("class=\"result__a\"");
    reveal_strlit("<a ");
    reveal_strlit("href=\"");
    reveal_strlit(">");
    lemma_next(html, "class=\"result__a\""@, pos, at);
    last_occurrence_is_found(html, "<a "@, at);
    assert(rfind_in(html, "<a "@, at) == Some(open));
    lemma_next(html, ">"@, open, close);
    lemma_find_in_is(html, "href=\""@, open, close, href - 6);
    lemma_next(html, "\""@, href, quote);
    lemma_next(html, ">"@, at, close);
    lemma_next(html, "</a>"@, close + 1, end);
    assert(href_span(html, at) == Some(Span { from: href, to: quote }));
    assert(content_span(html, at, "</a>"@) == Some(Span { from: close + 1, to: end }));
    let found = page_results(html, pos, max);
    if let Some(r) = page_result(
        html,
        Span { from: href, to: quote },
        Span { from: close + 1, to: end },
    ) {
        assert(found == seq![r] + page_results(html, end, (max - 1) as nat));
        assert(found.drop_first() =~= page_results(html, end, (max - 1) as nat));
    }
}

/// A mark without a whole link around it is passed over, and what comes after it is read as ever:
/// where no link is opened before it, none is closed after it, or its tag is never closed.
pub proof fn broken_links_are_passed_over(html: Seq<char>, pos: int, max: nat, at: int)
    requires
        0 <= pos,
        is_next(html, "class=\"result__a\""@, pos, at),
        ({
            ||| forall|j: int| 0 <= j && j + 3 <= at ==> !occurs_at(html, "<a "@, j)
            ||| is_absent(html, "</a>"@, at)
            ||| is_absent(html, ">"@, at)
        }),
    ensures
        page_results(html, pos, max) == page_results(html, at + 17, max),
{
    reveal_strlit("class=\"result__a\"");
    reveal_strlit("<a ");
    reveal_strlit(">");
    lemma_next(html, "class=\"result__a\""@, pos, at);
    last_occurrence_is_found(html, "<a "@, at);
    if is_absent(html, ">"@, at) {
        lemma_absent(html, ">"@, at);
    }
    if is_absent(html, "</a>"@, at) {
        lemma_find_in(html, ">"@, at, html.len() as int);
        if let Some(close) = find_in(html, ">"@, at, html.len() as int) {
            lemma_absent(html, "</a>"@, close + 1);
        }
    }
    assert(href_span(html, at) is None || content_span(html, at, "</a>"@) is None);
}

/// There are no results where none is marked any more.
pub proof fn results_end_with_the_marks(html: Seq<char>, pos: int, max: nat)
    requires
        0 <= pos,
        is_absent(html, "class=\"result__a\""@, pos),
    ensures
        page_results(html, pos, max).len() == 0,
{
    lemma_absent(html, "class=\"result__a\""@, pos);
}

/// The snippet of a result is the text of the next element that is marked as one, up to the first
/// closing tag of a link, a span or a block. It is empty where no element is marked.
pub proof fn snippets_are_read_up_to_a_closing_tag(
    html: Seq<char>,
    from: int,
    at: int,
    close: int,
    end: int,
)
    requires
        0 <= from,
    ensures
        is_absent(html, "class=\"result__snippet\""@, from) ==> snippet_after(html, from).len() == 0,
        ({
            &&& is_next(html, "class=\"result__snippet\""@, from, at)
            &&& is_next(html, ">"@, at, close)
            &&& close + 1 < end
            &&& occurs_at(html, "</a>"@, end) || occurs_at(html, "</span>"@, end) || occurs_at(
                html,
                "</div>"@,
                end,
            )
            &&& forall|j: int|
                #![trigger occurs_at(html, "</a>"@, j)]
                close + 1 <= j < end ==> !occurs_at(html, "</a>"@, j)
            &&& forall|j: int|
                #![trigger occurs_at(html, "</span>"@, j)]
                close + 1 <= j < end ==> !occurs_at(html, "</span>"@, j)
            &&& forall|j: int|
                #![trigger occurs_at(html, "</div>"@, j)]
                close + 1 <= j < end ==> !occurs_at(html, "</div>"@, j)
        }) ==> snippet_after(html, from) == tag_free(html.subrange(close + 1, end)),
{
    let len = html.len() as int;
    if is_absent(html, "class=\"result__snippet\""@, from) {
        lemma_absent(html, "class=\"result__snippet\""@, from);
    }
    if is_next(html, "class=\"result__snippet\""@, from, at) && is_next(html, ">"@, at, close)
        && close + 1 < end {
        lemma_next(html, "class=\"result__snippet\""@, from, at);
        lemma_next(html, ">"@, at, close);
        lemma_find_in(html, "</a>"@, close + 1, len);
        lemma_find_in(html, "</span>"@, close + 1, len);
        lemma_find_in(html, "</div>"@, close + 1, len);
    }
}

/// The address that is shown for a result is what stands in the next element that is marked as one,
/// up to the next tag, trimmed. It is empty where no element is marked.
pub proof fn shown_addresses_are_read_up_to_a_tag(
    html: Seq<char>,
    from: int,
    at: int,
    close: int,
    end: int,
)
    requires
        0 <= from,
    ensures
        is_absent(html, "class=\"result__url\""@, from) ==> shown_url_after(html, from).len() == 0,
        is_next(html, "class=\"result__url\""@, from, at) && is_next(html, ">"@, at, close)
            && is_next(html, "<"@, close + 1, end) ==> shown_url_after(html, from) == trimmed(
            html.subrange(close + 1, end),
        ),
{
    if is_absent(html, "class=\"result__url\""@, from) {
        lemma_absent(html, "class=\"result__url\""@, from);
    }
    if is_next(html, "class=\"result__url\""@, from, at) && is_next(html, ">"@, at, close)
        && is_next(html, "<"@, close + 1, end) {
        lemma_next(html, "class=\"result__url\""@, from, at);
        lemma_next(html, ">"@, at, close);
        lemma_next(html, "<"@, close + 1, end);
    }
}

/// What makes a page a block: it names the homepage as its address, and has none of the words with
/// which results are marked. Any one of these tells it from one.
pub proof fn blocks_name_the_homepage_and_mark_nothing(html: Seq<char>)
    ensures
        !contains_text(html, "rel=\"canonical\" href=\"https://duckduckgo.com/"@) ==> !blocked_page(
            html,
        ),
        contains_text(html, "result__a"@) ==> !blocked_page(html),
        contains_text(html, "result-link"@) ==> !blocked_page(html),
        contains_text(html, "result__snippet"@) ==> !blocked_page(html),
        contains_text(html, "rel=\"canonical\" href=\"https://duckduckgo.com/"@) && !contains_text(
            html,
            "result__a"@,
        ) && !contains_text(html, "result-link"@) && !contains_text(html, "result__snippet"@)
            ==> blocked_page(html),
{
}

/// A link whose opening tag has no attribute `href`, or one whose value is never closed, is passed
/// over as well.
pub proof fn links_without_an_address_are_passed_over(
    html: Seq<char>,
    pos: int,
    max: nat,
    at: int,
    open: int,
    close: int,
)
    requires
        0 <= pos,
        is_next(html, "class=\"result__a\""@, pos, at),
        is_last_before(html, "<a "@, at, open),
        is_next(html, ">"@, open, close),
        (forall|j: int| open <= j && j + 6 <= close ==> !occurs_at(html, "href=\""@, j)) || (
        forall|j: int| open + 6 <= j ==> !occurs_at(html, "\""@, j)),
    ensures
        page_results(html, pos, max) == page_results(html, at + 17, max),
{
    reveal_strlit("class=\"result__a\"");
    reveal_strlit("<a ");
    reveal_strlit("href=\"");
    lemma_next(html, "class=\"result__a\""@, pos, at);
    last_occurrence_is_found(html, "<a "@, at);
    lemma_next(html, ">"@, open, close);
    lemma_find_in(html, "href=\""@, open, close);
    if let Some(h) = find_in(html, "href=\""@, open, close) {
        lemma_absent(html, "\""@, h + 6);
    }
    assert(href_span(html, at) is None);
}

/// A snippet or a shown address that is never closed, or closed at once, is empty.
pub proof fn unclosed_texts_are_empty(html: Seq<char>, from: int, at: int, close: int)
    requires
        0 <= from,
        is_next(html, ">"@, at, close),
    ensures
        is_next(html, "class=\"result__snippet\""@, from, at) && (occurs_at(
            html,
            "</a>"@,
            close + 1,
        ) || occurs_at(html, "</span>"@, close + 1) || occurs_at(html, "</div>"@, close + 1) || (
        is_absent(html, "</a>"@, close + 1) && is_absent(html, "</span>"@, close + 1) && is_absent(
            html,
            "</div>"@,
            close + 1,
        ))) ==> snippet_after(html, from).len() == 0,
        is_next(html, "class=\"result__url\""@, from, at) && is_absent(html, "<"@, close + 1)
            ==> shown_url_after(html, from).len() == 0,
{
    let len = html.len() as int;
    if is_next(html, "class=\"result__snippet\""@, from, at) {
        lemma_next(html, "class=\"result__snippet\""@, from, at);
        lemma_next(html, ">"@, at, close);
        lemma_find_in(html, "</a>"@, close + 1, len);
        lemma_find_in(html, "</span>"@, close + 1, len);
        lemma_find_in(html, "</div>"@, close + 1, len);
    }
    if is_next(html, "class=\"result__url\""@, from, at) && is_absent(html, "<"@, close + 1) {
        lemma_next(html, "class=\"result__url\""@, from, at);
        lemma_next(html, ">"@, at, close);
        lemma_absent(html, "<"@, close + 1);
    }
}

} // verus!
