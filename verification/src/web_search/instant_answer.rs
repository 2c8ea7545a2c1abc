//! DuckDuckGo: the Instant Answer API, which has structured data for factual queries.

use vstd::prelude::*;
use vstd::utf8::encode_utf8;

use crate::json::{
    json_document, member_items, member_text, parse_json, Json, JsonData,
};
use crate::text::{
    begins_with, chars_of, contains_text, find, find_in, lemma_find_in, occurs_at, string_of,
};
use crate::web_search::duckduckgo::DDG_SOURCE;
use crate::web_search::percent::{encode, percent_encoded};
use crate::web_search::result::{result_texts, ResultTexts, SearchResult};

verus! {

/// How many characters of an encyclopedia article are kept.
pub const ABSTRACT_CHARS: usize = 300;

/// How many related topics are looked at.
pub const RELATED_TOPICS: usize = 5;

/// How many direct results are looked at.
pub const DIRECT_RESULTS: usize = 3;

// ── Request ──────────────────────────────────────────────────────

/// The address that answers a query.
pub open spec fn instant_answer_address(query: Seq<char>) -> Seq<char> {
    "https://api.duckduckgo.com/?q="@ + percent_encoded(encode_utf8(query))
        + "&format=json&no_html=1&skip_disambig=1"@
}

/// The address that answers a query.
pub fn instant_answer_url(query: &str) -> (r: String)
    ensures
        r@ == instant_answer_address(query@),
{
    let mut url = "https://api.duckduckgo.com/?q=".to_owned();
    url.append(encode(query).as_str());
    url.append("&format=json&no_html=1&skip_disambig=1");
    url
}

/// Whether a HTTP status means success.
pub open spec fn success_status(status: u16) -> bool {
    200 <= status < 300
}

/// Whether a HTTP status means success.
pub fn is_success(status: u16) -> (r: bool)
    ensures
        r == success_status(status),
{
    200 <= status && status < 300
}

// ── Reply ────────────────────────────────────────────────────────

/// The first characters of a text, at most `max`.
pub open spec fn first_chars(s: Seq<char>, max: nat) -> Seq<char> {
    if s.len() <= max {
        s
    } else {
        s.take(max as int)
    }
}

/// The result out of an encyclopedia article.
pub open spec fn article_result(data: JsonData) -> Option<ResultTexts> {
    let text = member_text(data, "AbstractText"@);
    let url = member_text(data, "AbstractURL"@);
    let heading = member_text(data, "Heading"@);
    if text.len() > 0 && url.len() > 0 {
        Some(
            ResultTexts {
                title: if heading.len() == 0 {
                    "Instant Answer"@
                } else {
                    heading
                },
                url,
                snippet: first_chars(text, ABSTRACT_CHARS as nat),
                source: DDG_SOURCE@,
            },
        )
    } else {
        None
    }
}

/// The result out of a direct answer, such as one to a calculation.
pub open spec fn answer_result(query: Seq<char>, data: JsonData) -> Option<ResultTexts> {
    let answer = member_text(data, "Answer"@);
    if answer.len() > 0 {
        Some(
            ResultTexts {
                title: query + " — Instant Answer"@,
                url: Seq::empty(),
                snippet: answer,
                source: DDG_SOURCE@,
            },
        )
    } else {
        None
    }
}

/// What stands before the first dash of a text, or the whole text where it has none.
pub open spec fn before_dash(text: Seq<char>) -> Seq<char> {
    match find_in(text, " - "@, 0, text.len() as int) {
        Some(i) => text.take(i),
        None => text,
    }
}

/// The result out of a related topic.
pub open spec fn topic_result(topic: JsonData) -> Option<ResultTexts> {
    let text = member_text(topic, "Text"@);
    let url = member_text(topic, "FirstURL"@);
    if text.len() > 0 && url.len() > 0 {
        Some(
            ResultTexts { title: before_dash(text), url, snippet: text, source: DDG_SOURCE@ },
        )
    } else {
        None
    }
}

/// The result out of a direct link.
pub open spec fn direct_result(item: JsonData) -> Option<ResultTexts> {
    let text = member_text(item, "Text"@);
    let url = member_text(item, "FirstURL"@);
    if text.len() > 0 && url.len() > 0 {
        Some(
            ResultTexts { title: text, url, snippet: Seq::empty(), source: DDG_SOURCE@ },
        )
    } else {
        None
    }
}

/// A result that may be missing, as a list.
pub open spec fn at_most_one(result: Option<ResultTexts>) -> Seq<ResultTexts> {
    match result {
        Some(r) => seq![r],
        None => Seq::empty(),
    }
}

/// The results of the first `n` related topics.
pub open spec fn topic_results(topics: Seq<JsonData>, n: nat) -> Seq<ResultTexts>
    decreases n,
{
    if n == 0 {
        Seq::empty()
    } else if n > topics.len() {
        topic_results(topics, (n - 1) as nat)
    } else {
        topic_results(topics, (n - 1) as nat) + at_most_one(topic_result(topics[n - 1]))
    }
}

/// The results of the first `n` direct links.
pub open spec fn direct_results(items: Seq<JsonData>, n: nat) -> Seq<ResultTexts>
    decreases n,
{
    if n == 0 {
        Seq::empty()
    } else if n > items.len() {
        direct_results(items, (n - 1) as nat)
    } else {
        direct_results(items, (n - 1) as nat) + at_most_one(direct_result(items[n - 1]))
    }
}

/// The results out of an answer to `query`: the article, the direct answer, the related topics and
/// the direct links.
pub open spec fn answer_results(query: Seq<char>, data: JsonData) -> Seq<ResultTexts> {
    at_most_one(article_result(data)) + at_most_one(answer_result(query, data)) + topic_results(
        member_items(data, "RelatedTopics"@),
        RELATED_TOPICS as nat,
    ) + direct_results(member_items(data, "Results"@), DIRECT_RESULTS as nat)
}

/// The results out of a reply to `query`, which is a HTTP status with a body. There are none where
/// it reports a failure, nor where its body is no JSON document.
pub open spec fn reply_results(query: Seq<char>, status: u16, body: Seq<char>) -> Seq<ResultTexts> {
    if success_status(status) {
        match json_document(body) {
            Some(data) => answer_results(query, data),
            None => Seq::empty(),
        }
    } else {
        Seq::empty()
    }
}

fn is_empty(s: &String) -> (r: bool)
    ensures
        r == (s@.len() == 0),
{
    chars_of(s.as_str()).len() == 0
}

fn take_chars(s: &str, max: usize) -> (r: String)
    ensures
        r@ == first_chars(s@, max as nat),
{
    let v = chars_of(s);
    if v.len() <= max {
        s.to_owned()
    } else {
        string_of(&v, 0, max)
    }
}

fn topic_title(text: &str) -> (r: String)
    ensures
        r@ == before_dash(text@),
{
    let v = chars_of(text);
    match find(&v, " - ", 0, v.len()) {
        Some(i) => string_of(&v, 0, i),
        None => text.to_owned(),
    }
}

/// Adds a result to a list where there is one.
fn push_result(results: &mut Vec<SearchResult>, result: Option<SearchResult>)
    ensures
        result_texts(final(results)@) == result_texts(old(results)@) + at_most_one(
            match result {
                Some(r) => Some(r@),
                None => None,
            },
        ),
{
    let ghost before = result_texts(results@);
    match result {
        Some(r) => {
            results.push(r);
            assert(result_texts(results@) =~= before + seq![r@]);
        },
        None => {
            assert(before =~= before + Seq::<ResultTexts>::empty());
        },
    }
}

/// Whether a result is the one that is meant.
spec fn same_result(found: Option<SearchResult>, meant: Option<ResultTexts>) -> bool {
    match (found, meant) {
        (Some(r), Some(t)) => r@ == t,
        (None, None) => true,
        _ => false,
    }
}

fn article(data: &Json) -> (r: Option<SearchResult>)
    ensures
        same_result(r, article_result(data@)),
{
    let text = data.get_text("AbstractText");
    let url = data.get_text("AbstractURL");
    let heading = data.get_text("Heading");
    if is_empty(&text) || is_empty(&url) {
        return None;
    }
    Some(
        SearchResult {
            title: if is_empty(&heading) {
                "Instant Answer".to_owned()
            } else {
                heading
            },
            url,
            snippet: take_chars(text.as_str(), ABSTRACT_CHARS),
            source: DDG_SOURCE.to_owned(),
        },
    )
}

fn direct_answer(query: &str, data: &Json) -> (r: Option<SearchResult>)
    ensures
        same_result(r, answer_result(query@, data@)),
{
    let answer = data.get_text("Answer");
    if is_empty(&answer) {
        return None;
    }
    let mut title = query.to_owned();
    title.append(" — Instant Answer");
    Some(
        SearchResult { title, url: String::new(), snippet: answer, source: DDG_SOURCE.to_owned() },
    )
}

fn topic(item: &Json) -> (r: Option<SearchResult>)
    ensures
        same_result(r, topic_result(item@)),
{
    let text = item.get_text("Text");
    let url = item.get_text("FirstURL");
    if is_empty(&text) || is_empty(&url) {
        return None;
    }
    Some(
        SearchResult {
            title: topic_title(text.as_str()),
            url,
            snippet: text,
            source: DDG_SOURCE.to_owned(),
        },
    )
}

fn direct(item: &Json) -> (r: Option<SearchResult>)
    ensures
        same_result(r, direct_result(item@)),
{
    let text = item.get_text("Text");
    let url = item.get_text("FirstURL");
    if is_empty(&text) || is_empty(&url) {
        return None;
    }
    Some(SearchResult { title: text, url, snippet: String::new(), source: DDG_SOURCE.to_owned() })
}

/// The results out of an answer to `query`.
pub fn instant_answers(query: &str, data: &Json) -> (r: Vec<SearchResult>)
    ensures
        result_texts(r@) == answer_results(query@, data@),
{
    let mut results: Vec<SearchResult> = Vec::new();
    assert(result_texts(results@) =~= Seq::<ResultTexts>::empty());
    push_result(&mut results, article(data));
    push_result(&mut results, direct_answer(query, data));
    let ghost front = at_most_one(article_result(data@)) + at_most_one(
        answer_result(query@, data@),
    );
    assert(result_texts(results@) =~= front);
    let ghost topics = member_items(data@, "RelatedTopics"@);
    assert(front + topic_results(topics, 0) =~= front);
    if let Some(Json::Array(items)) = data.get("RelatedTopics") {
        let mut i: usize = 0;
        while i < items.len() && i < RELATED_TOPICS
            invariant
                i <= items.len(),
                i <= RELATED_TOPICS,
                topics.len() == items.len(),
                forall|j: int| 0 <= j < topics.len() ==> #[trigger] topics[j] == items@[j]@,
                result_texts(results@) == front + topic_results(topics, i as nat),
            decreases items.len() - i,
        {
            let ghost done = topic_results(topics, i as nat);
            push_result(&mut results, topic(&items[i]));
            i += 1;
            assert(front + done + at_most_one(topic_result(topics[i - 1])) =~= front + (done
                + at_most_one(topic_result(topics[i - 1]))));
        }
        proof {
            lemma_topics_end(topics, i as nat, RELATED_TOPICS as nat);
        }
    } else {
        proof {
            lemma_topics_end(topics, 0, RELATED_TOPICS as nat);
        }
    }
    let ghost middle = front + topic_results(topics, RELATED_TOPICS as nat);
    let ghost links = member_items(data@, "Results"@);
    assert(middle + direct_results(links, 0) =~= middle);
    if let Some(Json::Array(items)) = data.get("Results") {
        let mut i: usize = 0;
        while i < items.len() && i < DIRECT_RESULTS
            invariant
                i <= items.len(),
                i <= DIRECT_RESULTS,
                links.len() == items.len(),
                forall|j: int| 0 <= j < links.len() ==> #[trigger] links[j] == items@[j]@,
                result_texts(results@) == middle + direct_results(links, i as nat),
            decreases items.len() - i,
        {
            let ghost done = direct_results(links, i as nat);
            push_result(&mut results, direct(&items[i]));
            i += 1;
            assert(middle + done + at_most_one(direct_result(links[i - 1])) =~= middle + (done
                + at_most_one(direct_result(links[i - 1]))));
        }
        proof {
            lemma_directs_end(links, i as nat, DIRECT_RESULTS as nat);
        }
    } else {
        proof {
            lemma_directs_end(links, 0, DIRECT_RESULTS as nat);
        }
    }
    results
}

proof fn lemma_topics_end(topics: Seq<JsonData>, n: nat, max: nat)
    requires
        n <= max,
        n < max ==> topics.len() <= n,
    ensures
        topic_results(topics, max) == topic_results(topics, n),
    decreases max,
{
    if n < max {
        lemma_topics_end(topics, n, (max - 1) as nat);
    }
}

proof fn lemma_directs_end(items: Seq<JsonData>, n: nat, max: nat)
    requires
        n <= max,
        n < max ==> items.len() <= n,
    ensures
        direct_results(items, max) == direct_results(items, n),
    decreases max,
{
    if n < max {
        lemma_directs_end(items, n, (max - 1) as nat);
    }
}

/// The results out of the reply to the request for `query`: its HTTP status with its body.
pub fn ddg_instant_answer(query: &str, status: u16, body: &str) -> (r: Vec<SearchResult>)
    ensures
        result_texts(r@) == reply_results(query@, status, body@),
{
    if is_success(status) {
        if let Some(data) = parse_json(body) {
            return instant_answers(query, &data);
        }
    }
    let none: Vec<SearchResult> = Vec::new();
    assert(result_texts(none@) =~= Seq::<ResultTexts>::empty());
    none
}

// ── Laws ─────────────────────────────────────────────────────────

proof fn lemma_topics_bounded(topics: Seq<JsonData>, n: nat)
    ensures
        topic_results(topics, n).len() <= n,
    decreases n,
{
    if n > 0 {
        lemma_topics_bounded(topics, (n - 1) as nat);
    }
}

proof fn lemma_directs_bounded(items: Seq<JsonData>, n: nat)
    ensures
        direct_results(items, n).len() <= n,
    decreases n,
{
    if n > 0 {
        lemma_directs_bounded(items, (n - 1) as nat);
    }
}

/// However long a reply is, it gives few results: one for the article, one for the direct answer,
/// and those of a few topics and links.
pub proof fn answers_are_few(query: Seq<char>, status: u16, body: Seq<char>)
    ensures
        reply_results(query, status, body).len() <= 2 + RELATED_TOPICS + DIRECT_RESULTS,
{
    if let Some(data) = json_document(body) {
        lemma_topics_bounded(member_items(data, "RelatedTopics"@), RELATED_TOPICS as nat);
        lemma_directs_bounded(member_items(data, "Results"@), DIRECT_RESULTS as nat);
    }
}

/// A failed request gives no result, whatever its body says.
pub proof fn failed_request_gives_no_answers(query: Seq<char>, status: u16, body: Seq<char>)
    requires
        !success_status(status),
    ensures
        reply_results(query, status, body).len() == 0,
{
}

/// The address that answers a query holds the encoded query and asks for plain JSON.
pub proof fn address_holds_the_query(query: Seq<char>)
    ensures
        instant_answer_address(query) == "https://api.duckduckgo.com/?q="@ + percent_encoded(
            encode_utf8(query),
        ) + "&format=json&no_html=1&skip_disambig=1"@,
{
}

/// The statuses from 200 to 299 mean success, and no others do.
pub proof fn success_is_two_hundred_odd(status: u16)
    ensures
        success_status(status) <==> status as int / 100 == 2,
{
}

/// A reply that reports success gives the results of its document, and none without one.
pub proof fn replies_give_the_results_of_their_document(
    query: Seq<char>,
    status: u16,
    body: Seq<char>,
    data: JsonData,
)
    requires
        200 <= status <= 299,
    ensures
        json_document(body) == Some(data) ==> reply_results(query, status, body) == answer_results(
            query,
            data,
        ),
        json_document(body) is None ==> reply_results(query, status, body).len() == 0,
{
}

/// An article that has a text and an address comes first: under its heading, with its address and
/// the first three hundred characters of its text.
pub proof fn article_comes_first(query: Seq<char>, data: JsonData)
    requires
        member_text(data, "AbstractText"@).len() > 0,
        member_text(data, "AbstractURL"@).len() > 0,
    ensures
        ({
            let text = member_text(data, "AbstractText"@);
            let found = answer_results(query, data);
            &&& found.len() > 0
            &&& found[0].url == member_text(data, "AbstractURL"@)
            &&& found[0].title == (if member_text(data, "Heading"@).len() > 0 {
                member_text(data, "Heading"@)
            } else {
                "Instant Answer"@
            })
            &&& text.len() <= 300 ==> found[0].snippet == text
            &&& text.len() > 300 ==> found[0].snippet == text.take(300)
            &&& found[0].source == "DuckDuckGo"@
        }),
{
}

/// A direct answer comes behind the article, or first where there is none: it has the query in its
/// title, no address, and the answer for its text.
pub proof fn direct_answer_follows(query: Seq<char>, data: JsonData)
    requires
        member_text(data, "Answer"@).len() > 0,
    ensures
        ({
            let found = answer_results(query, data);
            let i: int = if member_text(data, "AbstractText"@).len() > 0 && member_text(
                data,
                "AbstractURL"@,
            ).len() > 0 {
                1
            } else {
                0
            };
            &&& found.len() > i
            &&& found[i].title == query + " — Instant Answer"@
            &&& found[i].url.len() == 0
            &&& found[i].snippet == member_text(data, "Answer"@)
            &&& found[i].source == "DuckDuckGo"@
        }),
{
}

/// How many results an article and a direct answer give.
pub open spec fn results_in_front(data: JsonData) -> int {
    (if member_text(data, "AbstractText"@).len() > 0 && member_text(data, "AbstractURL"@).len() > 0 {
        1int
    } else {
        0
    }) + (if member_text(data, "Answer"@).len() > 0 {
        1int
    } else {
        0
    })
}

/// Behind the article and the direct answer come the related topics and then the direct links: of
/// the first five topics and the first three links, each that has a text and an address, in order.
pub proof fn topics_and_links_follow(query: Seq<char>, data: JsonData)
    ensures
        answer_results(query, data).skip(results_in_front(data)) == topic_results(
            member_items(data, "RelatedTopics"@),
            5,
        ) + direct_results(member_items(data, "Results"@), 3),
        answer_results(query, data).len() >= results_in_front(data),
{
    let front = at_most_one(article_result(data)) + at_most_one(answer_result(query, data));
    let topics = topic_results(member_items(data, "RelatedTopics"@), 5);
    let links = direct_results(member_items(data, "Results"@), 3);
    assert(front.len() == results_in_front(data));
    assert(answer_results(query, data) =~= front + (topics + links));
    assert((front + (topics + links)).skip(front.len() as int) =~= topics + links);
}

/// A topic with a text and an address gives one result, behind those of the topics before it: its
/// title is the text up to the first dash with spaces around it, its snippet the whole text. Any
/// other topic gives none.
pub proof fn topics_give_results_in_order(topics: Seq<JsonData>, n: nat)
    requires
        n < topics.len(),
    ensures
        topic_results(topics, 0).len() == 0,
        ({
            let text = member_text(topics[n as int], "Text"@);
            let url = member_text(topics[n as int], "FirstURL"@);
            let before = topic_results(topics, n);
            let after = topic_results(topics, n + 1);
            if text.len() > 0 && url.len() > 0 {
                &&& after.len() == before.len() + 1
                &&& after.drop_last() == before
                &&& after.last().url == url
                &&& after.last().snippet == text
                &&& after.last().source == "DuckDuckGo"@
                &&& !contains_text(text, " - "@) ==> after.last().title == text
                &&& contains_text(text, " - "@) ==> {
                    let title = after.last().title;
                    &&& begins_with(text, title + " - "@)
                    &&& forall|j: int| 0 <= j < title.len() ==> !occurs_at(text, " - "@, j)
                }
            } else {
                after == before
            }
        }),
{
    let text = member_text(topics[n as int], "Text"@);
    let before = topic_results(topics, n);
    let after = topic_results(topics, n + 1);
    assert(after == before + at_most_one(topic_result(topics[n as int])));
    lemma_find_in(text, " - "@, 0, text.len() as int);
    if contains_text(text, " - "@) {
        let k = choose|k: int| occurs_at(text, " - "@, k);
        assert(occurs_at(text, " - "@, k));
    }
    if let Some(i) = find_in(text, " - "@, 0, text.len() as int) {
        assert(occurs_at(text, " - "@, i));
        let title = text.take(i);
        assert(text.subrange(0, (title + " - "@).len() as int) =~= title + text.subrange(
            i,
            i + " - "@.len(),
        ));
    }
    match topic_result(topics[n as int]) {
        Some(r) => {
            assert((before + seq![r]).drop_last() =~= before);
        },
        None => {
            assert(before + Seq::<ResultTexts>::empty() =~= before);
        },
    }
}

/// A direct link with a text and an address gives one result, behind those of the links before it,
/// with the text for its title and no snippet. Any other link gives none.
pub proof fn links_give_results_in_order(items: Seq<JsonData>, n: nat)
    requires
        n < items.len(),
    ensures
        direct_results(items, 0).len() == 0,
        ({
            let text = member_text(items[n as int], "Text"@);
            let url = member_text(items[n as int], "FirstURL"@);
            let before = direct_results(items, n);
            let after = direct_results(items, n + 1);
            if text.len() > 0 && url.len() > 0 {
                &&& after.len() == before.len() + 1
                &&& after.drop_last() == before
                &&& after.last().url == url
                &&& after.last().title == text
                &&& after.last().snippet.len() == 0
                &&& after.last().source == "DuckDuckGo"@
            } else {
                after == before
            }
        }),
{
    let before = direct_results(items, n);
    assert(direct_results(items, n + 1) == before + at_most_one(direct_result(items[n as int])));
    match direct_result(items[n as int]) {
        Some(r) => {
            assert((before + seq![r]).drop_last() =~= before);
        },
        None => {
            assert(before + Seq::<ResultTexts>::empty() =~= before);
        },
    }
}

/// Where a list has fewer topics or links than are looked at, all are.
pub proof fn short_lists_are_read_whole(items: Seq<JsonData>, n: nat)
    requires
        n >= items.len(),
    ensures
        topic_results(items, n) == topic_results(items, items.len()),
        direct_results(items, n) == direct_results(items, items.len()),
{
    lemma_topics_end(items, items.len(), n);
    lemma_directs_end(items, items.len(), n);
}

} // verus!
